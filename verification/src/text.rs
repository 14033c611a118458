//! Text helpers: decimal rendering of numbers and a small string-keyed map.

use vstd::prelude::*;
use vstd::string::StringExecFns;

verus! {

/// The character of a decimal digit.
pub open spec fn digit_char(d: nat) -> char {
    if d == 0 {
        '0'
    } else if d == 1 {
        '1'
    } else if d == 2 {
        '2'
    } else if d == 3 {
        '3'
    } else if d == 4 {
        '4'
    } else if d == 5 {
        '5'
    } else if d == 6 {
        '6'
    } else if d == 7 {
        '7'
    } else if d == 8 {
        '8'
    } else {
        '9'
    }
}

/// The decimal representation of `n`, without leading zeros.
pub open spec fn decimal(n: nat) -> Seq<char>
    decreases n,
{
    if n < 10 {
        seq![digit_char(n)]
    } else {
        decimal(n / 10).push(digit_char(n % 10))
    }
}

/// The text of a boolean, as Rust prints it.
pub open spec fn bool_text(b: bool) -> Seq<char> {
    if b {
        seq!['t', 'r', 'u', 'e']
    } else {
        seq!['f', 'a', 'l', 's', 'e']
    }
}

fn digit_str(d: u64) -> (r: &'static str)
    requires
        d < 10,
    ensures
        r@ == seq![digit_char(d as nat)],
{
    proof {
        reveal_strlit("0");
        reveal_strlit("1");
        reveal_strlit("2");
        reveal_strlit("3");
        reveal_strlit("4");
        reveal_strlit("5");
        reveal_strlit("6");
        reveal_strlit("7");
        reveal_strlit("8");
        reveal_strlit("9");
    }
    if d == 0 {
        "0"
    } else if d == 1 {
        "1"
    } else if d == 2 {
        "2"
    } else if d == 3 {
        "3"
    } else if d == 4 {
        "4"
    } else if d == 5 {
        "5"
    } else if d == 6 {
        "6"
    } else if d == 7 {
        "7"
    } else if d == 8 {
        "8"
    } else {
        "9"
    }
}

/// Append the decimal representation of `n`.
pub fn push_decimal(s: &mut String, n: u64)
    ensures
        final(s)@ == old(s)@ + decimal(n as nat),
    decreases n,
{
    if n >= 10 {
        push_decimal(s, n / 10);
        s.append(digit_str(n % 10));
        proof {
            assert(decimal(n as nat) == decimal((n / 10) as nat).push(digit_char((n % 10) as nat)));
        }
    } else {
        s.append(digit_str(n));
    }
}

/// The decimal representation of `n`.
pub fn u64_to_decimal(n: u64) -> (r: String)
    ensures
        r@ == decimal(n as nat),
{
    let mut s = String::new();
    push_decimal(&mut s, n);
    proof {
        assert(s@ =~= decimal(n as nat));
    }
    s
}

/// Append `true` or `false`.
pub fn push_bool(s: &mut String, b: bool)
    ensures
        final(s)@ == old(s)@ + bool_text(b),
{
    proof {
        reveal_strlit("true");
        reveal_strlit("false");
    }
    if b {
        s.append("true");
    } else {
        s.append("false");
    }
}

/// Whether two strings hold the same text.
pub fn same_text(a: &str, b: &str) -> (r: bool)
    ensures
        r == (a@ == b@),
{
    let x: String = a.to_owned();
    let y: String = b.to_owned();
    x == y
}

/// A map from string keys to string values that remembers insertion order.
#[derive(Debug, Default, PartialEq, Eq)]
pub struct StringMap {
    keys: Vec<String>,
    values: Vec<String>,
}

impl View for StringMap {
    type V = Map<Seq<char>, Seq<char>>;

    closed spec fn view(&self) -> Map<Seq<char>, Seq<char>> {
        Map::new(
            |k: Seq<char>| self.key_views().contains(k),
            |k: Seq<char>| self.value_views()[self.key_views().index_of(k)],
        )
    }
}

impl Clone for StringMap {
    fn clone(&self) -> (r: Self)
        ensures
            r.contents() == self.contents(),
            r@ == self@,
            r.wf() == self.wf(),
            r.key_order() == self.key_order(),
    {
        let keys = self.keys.clone();
        let values = self.values.clone();
        let r = StringMap { keys, values };
        proof {
            assert(r.key_views() =~= self.key_views()) by {
                assert forall|i: int| 0 <= i < keys@.len() implies keys@[i] == self.keys@[i] by {
                    assert(cloned(self.keys[i], keys[i]));
                }
            }
            assert(r.value_views() =~= self.value_views()) by {
                assert forall|i: int| 0 <= i < values@.len() implies values@[i] == self.values@[i] by {
                    assert(cloned(self.values[i], values[i]));
                }
            }
            assert(r@ =~= self@);
        }
        r
    }
}

impl StringMap {
    closed spec fn key_views(&self) -> Seq<Seq<char>> {
        self.keys@.map_values(|k: String| k@)
    }

    closed spec fn value_views(&self) -> Seq<Seq<char>> {
        self.values@.map_values(|v: String| v@)
    }

    /// The keys and values, position by position; everything stated of a
    /// map is a function of this.
    pub closed spec fn contents(&self) -> (Seq<Seq<char>>, Seq<Seq<char>>) {
        (self.key_views(), self.value_views())
    }

    /// Internal consistency: keys are distinct and paired with values.
    pub closed spec fn wf(&self) -> bool {
        &&& self.key_views().len() == self.value_views().len()
        &&& self.key_views().no_duplicates()
    }

    /// The keys in insertion order.
    pub closed spec fn key_order(&self) -> Seq<Seq<char>> {
        self.key_views()
    }

    proof fn lemma_lookup(&self, i: int)
        requires
            self.wf(),
            0 <= i < self.keys@.len(),
        ensures
            self@.contains_key(self.keys@[i]@),
            self@[self.keys@[i]@] == self.values@[i]@,
    {
        let kv = self.key_views();
        assert(kv[i] == self.keys@[i]@);
        assert(kv.contains(kv[i]));
        let j = kv.index_of(kv[i]);
        assert(kv[j] == kv[i]);
    }

    /// An empty map.
    pub fn new() -> (m: StringMap)
        ensures
            m.wf(),
            m@ == Map::<Seq<char>, Seq<char>>::empty(),
            m.key_order().len() == 0,
    {
        let m = StringMap { keys: Vec::new(), values: Vec::new() };
        proof {
            assert(m@ =~= Map::<Seq<char>, Seq<char>>::empty());
        }
        m
    }

    fn position(&self, key: &str) -> (r: Option<usize>)
        requires
            self.wf(),
        ensures
            match r {
                Some(i) => i < self.keys@.len() && self.keys@[i as int]@ == key@,
                None => !self@.contains_key(key@),
            },
    {
        let n = self.keys.len();
        let mut i: usize = 0;
        while i < n
            invariant
                n == self.keys@.len(),
                i <= n,
                self.wf(),
                forall|k: int| 0 <= k < i ==> self.keys@[k]@ != key@,
            decreases n - i,
        {
            if same_text(self.keys[i].as_str(), key) {
                return Some(i);
            }
            i = i + 1;
        }
        proof {
            if self@.contains_key(key@) {
                let kv = self.key_views();
                let j = choose|j: int| 0 <= j < kv.len() && kv[j] == key@;
                assert(self.keys@[j]@ == key@);
            }
        }
        None
    }

    /// The value stored under `key`.
    pub fn get(&self, key: &str) -> (r: Option<&String>)
        requires
            self.wf(),
        ensures
            match r {
                Some(v) => self@.contains_key(key@) && self@[key@] == v@,
                None => !self@.contains_key(key@),
            },
    {
        match self.position(key) {
            Some(i) => {
                proof {
                    self.lemma_lookup(i as int);
                }
                Some(&self.values[i])
            },
            None => None,
        }
    }

    /// Whether a value is stored under `key`.
    pub fn contains_key(&self, key: &str) -> (r: bool)
        requires
            self.wf(),
        ensures
            r == self@.contains_key(key@),
    {
        match self.position(key) {
            Some(i) => {
                proof {
                    self.lemma_lookup(i as int);
                }
                true
            },
            None => false,
        }
    }

    /// Number of keys.
    pub fn len(&self) -> (r: usize)
        requires
            self.wf(),
        ensures
            r == self@.dom().len(),
            r == self.key_order().len(),
    {
        proof {
            self.lemma_dom();
        }
        self.keys.len()
    }

    /// The domain is the set of keys, one per position.
    proof fn lemma_dom(&self)
        requires
            self.wf(),
        ensures
            self@.dom() == self.key_views().to_set(),
            self@.dom().len() == self.keys@.len(),
            self@.dom().finite(),
    {
        assert(self@.dom() =~= self.key_views().to_set());
        self.key_views().unique_seq_to_set();
        broadcast use vstd::seq_lib::seq_to_set_is_finite;
    }

    /// Store `value` under `key`, returning the value it replaces.
    ///
    /// A new key goes after the existing ones; an existing key keeps its
    /// place.
    pub fn insert(&mut self, key: String, value: String) -> (r: Option<String>)
        requires
            old(self).wf(),
        ensures
            final(self).wf(),
            final(self)@ == old(self)@.insert(key@, value@),
            match r {
                Some(v) => old(self)@.contains_key(key@) && old(self)@[key@] == v@,
                None => !old(self)@.contains_key(key@),
            },
            old(self)@.contains_key(key@) ==> final(self).key_order() == old(self).key_order(),
            !old(self)@.contains_key(key@) ==> final(self).key_order() == old(self).key_order().push(
                key@,
            ),
    {
        let ghost old_self = *self;
        match self.position(key.as_str()) {
            Some(i) => {
                proof {
                    old_self.lemma_lookup(i as int);
                }
                let mut v = value;
                std::mem::swap(&mut v, &mut self.values[i]);
                proof {
                    assert(self.keys@ == old_self.keys@);
                    assert(self.key_views() == old_self.key_views());
                    assert forall|k: Seq<char>| #![auto] self@.contains_key(k) implies self@[k]
                        == old_self@.insert(key@, value@)[k] by {
                        let kv = self.key_views();
                        let j = kv.index_of(k);
                        assert(kv[j] == k);
                        assert(kv[i as int] == key@);
                        if j != i as int {
                            assert(self.values@[j] == old_self.values@[j]);
                            assert(k != key@);
                            old_self.lemma_lookup(j);
                        } else {
                            assert(k == key@);
                        }
                    }
                    assert(self@ =~= old_self@.insert(key@, value@));
                }
                Some(v)
            },
            None => {
                self.keys.push(key);
                self.values.push(value);
                proof {
                    let kv = self.key_views();
                    let okv = old_self.key_views();
                    assert(kv =~= okv.push(key@));
                    assert forall|a: int, b: int| 0 <= a < kv.len() && 0 <= b < kv.len() && a != b implies kv[a]
                        != kv[b] by {
                        if a < okv.len() && b < okv.len() {
                        } else if a == okv.len() as int {
                            assert(!okv.contains(key@));
                            assert(kv[b] == okv[b]);
                        } else {
                            assert(!okv.contains(key@));
                            assert(kv[a] == okv[a]);
                        }
                    }
                    assert forall|k: Seq<char>| #![auto] self@.contains_key(k) implies self@[k]
                        == old_self@.insert(key@, value@)[k] by {
                        let j = kv.index_of(k);
                        assert(kv[j] == k);
                        if j < okv.len() {
                            assert(self.values@[j] == old_self.values@[j]);
                            assert(self.keys@[j] == old_self.keys@[j]);
                            old_self.lemma_lookup(j);
                        } else {
                            assert(k == key@);
                        }
                    }
                    assert forall|k: Seq<char>| #![auto] self@.contains_key(k) <==> old_self@.insert(key@, value@).contains_key(k) by {
                        if kv.contains(k) {
                            let j = choose|j: int| 0 <= j < kv.len() && kv[j] == k;
                            if j < okv.len() {
                                assert(okv[j] == k);
                            }
                        }
                        if okv.contains(k) {
                            let j = choose|j: int| 0 <= j < okv.len() && okv[j] == k;
                            assert(kv[j] == k);
                        }
                        if k == key@ {
                            assert(kv[okv.len() as int] == k);
                        }
                    }
                    assert(self@ =~= old_self@.insert(key@, value@));
                }
                None
            },
        }
    }
}

} // verus!
