//! A map from text keys to values that remembers insertion order: the
//! contents of an in-memory storage backend and of the devtools registry.

use vstd::prelude::*;
use vstd::string::StringExecFns;
use crate::text::same_text;

verus! {

/// A map from text keys to values, keys kept in insertion order.
#[derive(Debug)]
pub struct KeyedMap<V> {
    keys: Vec<String>,
    values: Vec<V>,
}

/// A map from text keys to byte strings.
pub type ByteMap = KeyedMap<Vec<u8>>;

impl<V> View for KeyedMap<V> {
    type V = Map<Seq<char>, V>;

    closed spec fn view(&self) -> Map<Seq<char>, V> {
        Map::new(
            |k: Seq<char>| self.key_views().contains(k),
            |k: Seq<char>| self.value_views()[self.key_views().index_of(k)],
        )
    }
}

impl<V> KeyedMap<V> {
    closed spec fn key_views(&self) -> Seq<Seq<char>> {
        self.keys@.map_values(|k: String| k@)
    }

    closed spec fn value_views(&self) -> Seq<V> {
        self.values@
    }

    /// Internal consistency: keys are distinct and paired with values.
    pub closed spec fn wf(&self) -> bool {
        &&& self.key_views().len() == self.value_views().len()
        &&& self.key_views().no_duplicates()
    }

    /// The keys in insertion order.
    pub closed spec fn key_order(&self) -> Seq<Seq<char>> {
        self.key_views()
    }

    proof fn lemma_lookup(&self, i: int)
        requires
            self.wf(),
            0 <= i < self.keys@.len(),
        ensures
            self@.contains_key(self.keys@[i]@),
            self@[self.keys@[i]@] == self.values@[i],
    {
        let kv = self.key_views();
        assert(kv[i] == self.keys@[i]@);
        assert(kv.contains(kv[i]));
        let j = kv.index_of(kv[i]);
        assert(kv[j] == kv[i]);
    }

    /// The domain is the set of keys, one per position.
    proof fn lemma_dom(&self)
        requires
            self.wf(),
        ensures
            self@.dom() == self.key_views().to_set(),
            self@.dom().len() == self.keys@.len(),
            self@.dom().finite(),
    {
        assert(self@.dom() =~= self.key_views().to_set());
        self.key_views().unique_seq_to_set();
        broadcast use vstd::seq_lib::seq_to_set_is_finite;
    }

    /// Every key of the order is in the map, and nothing else.
    pub proof fn lemma_key_order(&self)
        requires
            self.wf(),
        ensures
            self.key_order().no_duplicates(),
            self.key_order().to_set() == self@.dom(),
            self.key_order().len() == self@.dom().len(),
    {
        self.lemma_dom();
    }

    /// An empty map.
    pub fn new() -> (m: KeyedMap<V>)
        ensures
            m.wf(),
            m@ == Map::<Seq<char>, V>::empty(),
            m.key_order().len() == 0,
    {
        let m = KeyedMap { keys: Vec::new(), values: Vec::new() };
        proof {
            assert(m@ =~= Map::<Seq<char>, V>::empty());
        }
        m
    }

    fn position(&self, key: &str) -> (r: Option<usize>)
        requires
            self.wf(),
        ensures
            match r {
                Some(i) => i < self.keys@.len() && self.keys@[i as int]@ == key@,
                None => !self@.contains_key(key@),
            },
    {
        let n = self.keys.len();
        let mut i: usize = 0;
        while i < n
            invariant
                n == self.keys@.len(),
                i <= n,
                self.wf(),
                forall|k: int| 0 <= k < i ==> self.keys@[k]@ != key@,
            decreases n - i,
        {
            if same_text(self.keys[i].as_str(), key) {
                return Some(i);
            }
            i = i + 1;
        }
        proof {
            if self@.contains_key(key@) {
                let kv = self.key_views();
                let j = choose|j: int| 0 <= j < kv.len() && kv[j] == key@;
                assert(self.keys@[j]@ == key@);
            }
        }
        None
    }

    /// The value stored under `key`.
    pub fn get(&self, key: &str) -> (r: Option<&V>)
        requires
            self.wf(),
        ensures
            match r {
                Some(v) => self@.contains_key(key@) && self@[key@] == *v,
                None => !self@.contains_key(key@),
            },
    {
        match self.position(key) {
            Some(i) => {
                proof {
                    self.lemma_lookup(i as int);
                }
                Some(&self.values[i])
            },
            None => None,
        }
    }

    /// Number of keys.
    pub fn len(&self) -> (r: usize)
        requires
            self.wf(),
        ensures
            r == self@.dom().len(),
            r == self.key_order().len(),
    {
        proof {
            self.lemma_dom();
        }
        self.keys.len()
    }

    /// The keys, in insertion order.
    pub fn keys(&self) -> (r: Vec<String>)
        requires
            self.wf(),
        ensures
            r@.map_values(|k: String| k@) == self.key_order(),
    {
        let mut r: Vec<String> = Vec::new();
        let mut i: usize = 0;
        while i < self.keys.len()
            invariant
                i <= self.keys@.len(),
                r@.map_values(|k: String| k@) == self.key_views().take(i as int),
            decreases self.keys.len() - i,
        {
            let ghost before = r@;
            let k = self.keys[i].clone();
            r.push(k);
            proof {
                assert(r@ == before.push(k));
                assert(k@ == self.keys@[i as int]@);
                assert(r@.map_values(|k: String| k@) =~= before.map_values(|k: String| k@).push(k@));
                assert(r@.map_values(|k: String| k@) =~= self.key_views().take(i + 1));
            }
            i = i + 1;
        }
        proof {
            assert(self.key_views().take(self.keys@.len() as int) =~= self.key_views());
        }
        r
    }

    /// Store `value` under `key`, replacing what was there.
    ///
    /// A new key goes after the existing ones; an existing key keeps its
    /// place.
    pub fn insert(&mut self, key: String, value: V)
        requires
            old(self).wf(),
        ensures
            final(self).wf(),
            final(self)@ == old(self)@.insert(key@, value),
            old(self)@.contains_key(key@) ==> final(self).key_order() == old(self).key_order(),
            !old(self)@.contains_key(key@) ==> final(self).key_order() == old(self).key_order().push(
                key@,
            ),
    {
        let ghost old_self = *self;
        match self.position(key.as_str()) {
            Some(i) => {
                proof {
                    old_self.lemma_lookup(i as int);
                }
                let mut v = value;
                std::mem::swap(&mut v, &mut self.values[i]);
                proof {
                    assert(self.keys@ == old_self.keys@);
                    assert(self.key_views() == old_self.key_views());
                    assert forall|k: Seq<char>| #![auto] self@.contains_key(k) implies self@[k]
                        == old_self@.insert(key@, value)[k] by {
                        let kv = self.key_views();
                        let j = kv.index_of(k);
                        assert(kv[j] == k);
                        assert(kv[i as int] == key@);
                        if j != i as int {
                            assert(self.values@[j] == old_self.values@[j]);
                            assert(k != key@);
                            old_self.lemma_lookup(j);
                        } else {
                            assert(k == key@);
                        }
                    }
                    assert(self@ =~= old_self@.insert(key@, value));
                }
            },
            None => {
                self.keys.push(key);
                self.values.push(value);
                proof {
                    let kv = self.key_views();
                    let okv = old_self.key_views();
                    assert(kv =~= okv.push(key@));
                    assert forall|a: int, b: int|
                        0 <= a < kv.len() && 0 <= b < kv.len() && a != b implies kv[a]
                        != kv[b] by {
                        if a < okv.len() && b < okv.len() {
                        } else if a == okv.len() as int {
                            assert(!okv.contains(key@));
                            assert(kv[b] == okv[b]);
                        } else {
                            assert(!okv.contains(key@));
                            assert(kv[a] == okv[a]);
                        }
                    }
                    assert forall|k: Seq<char>| #![auto] self@.contains_key(k) implies self@[k]
                        == old_self@.insert(key@, value)[k] by {
                        let j = kv.index_of(k);
                        assert(kv[j] == k);
                        if j < okv.len() {
                            assert(self.values@[j] == old_self.values@[j]);
                            assert(self.keys@[j] == old_self.keys@[j]);
                            old_self.lemma_lookup(j);
                        } else {
                            assert(k == key@);
                        }
                    }
                    assert forall|k: Seq<char>| #![auto]
                        self@.contains_key(k) <==> old_self@.insert(key@, value).contains_key(
                            k,
                        ) by {
                        if kv.contains(k) {
                            let j = choose|j: int| 0 <= j < kv.len() && kv[j] == k;
                            if j < okv.len() {
                                assert(okv[j] == k);
                            }
                        }
                        if okv.contains(k) {
                            let j = choose|j: int| 0 <= j < okv.len() && okv[j] == k;
                            assert(kv[j] == k);
                        }
                        if k == key@ {
                            assert(kv[okv.len() as int] == k);
                        }
                    }
                    assert(self@ =~= old_self@.insert(key@, value));
                }
            },
        }
    }

    /// Remove `key` and its bytes, if present; the other keys keep their
    /// order.
    pub fn remove(&mut self, key: &str)
        requires
            old(self).wf(),
        ensures
            final(self).wf(),
            final(self)@ == old(self)@.remove(key@),
            final(self).key_order() == without(old(self).key_order(), key@),
    {
        let ghost old_self = *self;
        match self.position(key) {
            Some(i) => {
                self.keys.remove(i);
                self.values.remove(i);
                proof {
                    let kv = self.key_views();
                    let okv = old_self.key_views();
                    assert(kv =~= okv.remove(i as int));
                    assert(self.value_views() =~= old_self.value_views().remove(i as int));
                    assert forall|a: int, b: int|
                        0 <= a < kv.len() && 0 <= b < kv.len() && a != b implies kv[a]
                        != kv[b] by {
                        let oa = if a < i { a } else { a + 1 };
                        let ob = if b < i { b } else { b + 1 };
                        assert(kv[a] == okv[oa]);
                        assert(kv[b] == okv[ob]);
                    }
                    assert forall|k: Seq<char>| #![auto]
                        self@.contains_key(k) <==> old_self@.remove(key@).contains_key(k) by {
                        if kv.contains(k) {
                            let j = choose|j: int| 0 <= j < kv.len() && kv[j] == k;
                            let oj = if j < i { j } else { j + 1 };
                            assert(okv[oj] == k);
                            assert(okv[i as int] == key@);
                            assert(oj != i);
                        }
                        if okv.contains(k) && k != key@ {
                            let j = choose|j: int| 0 <= j < okv.len() && okv[j] == k;
                            assert(j != i);
                            let nj = if j < i { j } else { j - 1 };
                            assert(kv[nj] == k);
                        }
                    }
                    assert forall|k: Seq<char>| #![auto] self@.contains_key(k) implies self@[k]
                        == old_self@.remove(key@)[k] by {
                        let j = kv.index_of(k);
                        assert(kv[j] == k);
                        let oj = if j < i { j } else { j + 1 };
                        assert(self.keys@[j] == old_self.keys@[oj]);
                        assert(self.values@[j] == old_self.values@[oj]);
                        old_self.lemma_lookup(oj);
                    }
                    assert(self@ =~= old_self@.remove(key@));
                    lemma_filter_out_distinct(okv, i as int, key@);
                }
            },
            None => {
                proof {
                    assert(self@ =~= old_self@.remove(key@));
                    lemma_filter_out_absent(old_self.key_views(), key@);
                }
            },
        }
    }

    /// Remove every key.
    pub fn clear(&mut self)
        ensures
            final(self).wf(),
            final(self)@ == Map::<Seq<char>, V>::empty(),
            final(self).key_order().len() == 0,
    {
        self.keys.clear();
        self.values.clear();
        proof {
            assert(self@ =~= Map::<Seq<char>, V>::empty());
        }
    }
}

impl<V> Default for KeyedMap<V> {
    fn default() -> (m: Self)
        ensures
            m.wf(),
            m@ == Map::<Seq<char>, V>::empty(),
            m.key_order().len() == 0,
    {
        KeyedMap::new()
    }
}

impl<V: Clone> KeyedMap<V> {
    /// A copy with the same keys in the same order, each value cloned.
    pub fn copy(&self) -> (r: KeyedMap<V>)
        ensures
            self.wf() ==> r.wf(),
            self.wf() ==> r@.dom() == self@.dom(),
            self.wf() ==> forall|k: Seq<char>| #[trigger] r@.contains_key(k) ==> cloned(self@[k], r@[k]),
            self.wf() ==> r.key_order() == self.key_order(),
    {
        let mut r = KeyedMap::new();
        let n = if self.keys.len() < self.values.len() {
            self.keys.len()
        } else {
            self.values.len()
        };
        let mut i: usize = 0;
        while i < n
            invariant
                n <= self.keys@.len(),
                n <= self.values@.len(),
                self.wf() ==> n == self.keys@.len(),
                i <= n,
                r.key_views() == self.key_views().take(i as int),
                r.values@.len() == i,
                forall|j: int| 0 <= j < i ==> cloned(self.values@[j], #[trigger] r.values@[j]),
                self.wf() ==> r.wf(),
            decreases n - i,
        {
            let ghost keys_before = r.keys@;
            let k = self.keys[i].clone();
            r.keys.push(k);
            r.values.push(self.values[i].clone());
            proof {
                assert(k@ == self.keys@[i as int]@);
                assert(r.keys@ == keys_before.push(k));
                assert(r.key_views() =~= keys_before.map_values(|k: String| k@).push(k@));
                assert(self.key_views()[i as int] == self.keys@[i as int]@);
                assert(self.key_views().take(i + 1) =~= self.key_views().take(i as int).push(
                    self.key_views()[i as int],
                ));
                assert(r.key_views() =~= self.key_views().take(i + 1));
                if self.wf() {
                    let kv = r.key_views();
                    assert forall|a: int, b: int|
                        0 <= a < kv.len() && 0 <= b < kv.len() && a != b implies kv[a]
                        != kv[b] by {
                        assert(kv[a] == self.key_views()[a]);
                        assert(kv[b] == self.key_views()[b]);
                    }
                }
            }
            i = i + 1;
        }
        proof {
            if self.wf() {
                assert(r.key_views() =~= self.key_views());
                assert(r@.dom() =~= self@.dom());
                assert forall|k: Seq<char>| #[trigger] r@.contains_key(k) implies cloned(
                    self@[k],
                    r@[k],
                ) by {
                    let j = r.key_views().index_of(k);
                    assert(r.key_views()[j] == k);
                }
            }
        }
        r
    }
}

/// `order` without the occurrences of `key`.
pub open spec fn without(order: Seq<Seq<char>>, key: Seq<char>) -> Seq<Seq<char>> {
    order.filter(other_than(key))
}

/// The test that keeps every key but `key`.
pub open spec fn other_than(key: Seq<char>) -> spec_fn(Seq<char>) -> bool {
    |k: Seq<char>| k != key
}

/// Filtering out a key that occurs once, at position `i`, removes that
/// position.
proof fn lemma_filter_out_distinct(s: Seq<Seq<char>>, i: int, key: Seq<char>)
    requires
        s.no_duplicates(),
        0 <= i < s.len(),
        s[i] == key,
    ensures
        without(s, key) == s.remove(i),
    decreases s.len(),
{
    let p = other_than(key);
    let last = s.len() - 1;
    if i == last {
        lemma_filter_out_absent(s.drop_last(), key);
        assert(s.drop_last() =~= s.remove(i));
        assert(s.filter(p) == s.drop_last().filter(p)) by {
            assert(s[last] == key);
            assert(s =~= s.drop_last().push(key));
            s.drop_last().lemma_filter_push(key, p);
        }
    } else {
        let prefix = s.drop_last();
        assert(prefix.no_duplicates());
        lemma_filter_out_distinct(prefix, i, key);
        assert(s =~= prefix.push(s[last]));
        prefix.lemma_filter_push(s[last], p);
        assert(s[last] != key);
        assert(s.remove(i) =~= prefix.remove(i).push(s[last]));
    }
}

/// Filtering out a key that does not occur changes nothing.
proof fn lemma_filter_out_absent(s: Seq<Seq<char>>, key: Seq<char>)
    requires
        !s.contains(key),
    ensures
        without(s, key) == s,
    decreases s.len(),
{
    let p = other_than(key);
    if s.len() == 0 {
        assert(s.filter(p) =~= s);
    } else {
        let prefix = s.drop_last();
        lemma_filter_out_absent(prefix, key);
        assert(s =~= prefix.push(s.last()));
        prefix.lemma_filter_push(s.last(), p);
        assert(s.last() != key);
    }
}

/// Reading a key right after storing bytes under it gives those bytes;
/// storing under one key leaves every other key as it was.
pub proof fn lemma_read_after_write<V>(m: KeyedMap<V>, key: Seq<char>, value: V, other: Seq<char>)
    requires
        other != key,
    ensures
        m@.insert(key, value).contains_key(key),
        m@.insert(key, value)[key] == value,
        m@.insert(key, value).contains_key(other) == m@.contains_key(other),
        m@.contains_key(other) ==> m@.insert(key, value)[other] == m@[other],
{
}

/// After a removal the key is absent and every other key is as it was.
pub proof fn lemma_read_after_remove<V>(m: KeyedMap<V>, key: Seq<char>, other: Seq<char>)
    requires
        other != key,
    ensures
        !m@.remove(key).contains_key(key),
        m@.remove(key).contains_key(other) == m@.contains_key(other),
        m@.contains_key(other) ==> m@.remove(key)[other] == m@[other],
{
}

} // verus!
