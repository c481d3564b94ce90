//! Sequences kept in strictly increasing order of a string key, so that each
//! key occurs at most once and iteration is deterministic.

use vstd::prelude::*;
use std::cmp::Ordering;
use crate::order::{
    compare_str, lemma_str_lt_asymmetric, lemma_str_lt_irreflexive,
    lemma_str_lt_transitive, str_lt,
};

verus! {

/// An item with a string key.
pub trait Keyed: Sized {
    /// The key.
    spec fn key(&self) -> Seq<char>;
}

/// An executable item with a string key.
pub trait KeyedItem: Keyed {
    /// Returns the key.
    fn key_str(&self) -> (r: &str)
        ensures
            r@ == self.key(),
    ;
}

/// `s` is in strictly increasing order of keys.
pub open spec fn sorted_by_key<T: Keyed>(s: Seq<T>) -> bool {
    forall|i: int, j: int|
        #![trigger s[i], s[j]]
        0 <= i < j < s.len() ==> str_lt(s[i].key(), s[j].key())
}

/// `s` is in strictly increasing order of keys, and `m` maps the key of each
/// item of `s` to that item, and holds no other key.
pub open spec fn keyed<T: Keyed>(s: Seq<T>, m: Map<Seq<char>, T>) -> bool {
    &&& sorted_by_key(s)
    &&& forall|k: Seq<char>|
        #![trigger m.contains_key(k)]
        m.contains_key(k) <==> exists|i: int| 0 <= i < s.len() && s[i].key() == k
    &&& forall|i: int| 0 <= i < s.len() ==> m[#[trigger] s[i].key()] == s[i]
}

/// A map held in order of keys is held in one way only: two sequences in
/// strictly increasing order of keys that hold the same items are equal.
pub proof fn lemma_keyed_unique<T: Keyed>(a: Seq<T>, b: Seq<T>, m: Map<Seq<char>, T>)
    requires
        keyed(a, m),
        keyed(b, m),
    ensures
        a == b,
    decreases a.len(),
{
    if a.len() == 0 {
        if b.len() > 0 {
            assert(m.contains_key(b[0].key()));
        }
        assert(a =~= b);
    } else {
        assert(m.contains_key(a[0].key()));
        let j = choose|j: int| 0 <= j < b.len() && b[j].key() == a[0].key();
        assert(m.contains_key(b[0].key()));
        let i = choose|i: int| 0 <= i < a.len() && a[i].key() == b[0].key();
        if j > 0 {
            assert(str_lt(b[0].key(), b[j].key()));
            if i > 0 {
                assert(str_lt(a[0].key(), a[i].key()));
                lemma_str_lt_asymmetric(a[0].key(), b[0].key());
            } else {
                lemma_str_lt_irreflexive(a[0].key());
            }
        }
        assert(j == 0);
        assert(a[0] == b[0]);
        let k0 = a[0].key();
        let m2 = m.remove(k0);
        let a2 = a.drop_first();
        let b2 = b.drop_first();
        lemma_keyed_drop_first(a, m);
        lemma_keyed_drop_first(b, m);
        lemma_keyed_unique(a2, b2, m2);
        assert(a =~= seq![a[0]] + a2);
        assert(b =~= seq![b[0]] + b2);
    }
}

proof fn lemma_keyed_drop_first<T: Keyed>(s: Seq<T>, m: Map<Seq<char>, T>)
    requires
        keyed(s, m),
        s.len() > 0,
    ensures
        keyed(s.drop_first(), m.remove(s[0].key())),
{
    let t = s.drop_first();
    let k0 = s[0].key();
    let m2 = m.remove(k0);
    assert forall|i: int, j: int| #![trigger t[i], t[j]] 0 <= i < j < t.len() implies str_lt(
        t[i].key(),
        t[j].key(),
    ) by {
        assert(t[i] == s[i + 1] && t[j] == s[j + 1]);
    }
    assert forall|k: Seq<char>| #[trigger] m2.contains_key(k) <==> exists|i: int|
        0 <= i < t.len() && t[i].key() == k by {
        if m2.contains_key(k) {
            let i = choose|i: int| 0 <= i < s.len() && s[i].key() == k;
            assert(i != 0);
            assert(t[i - 1].key() == k);
        }
        if exists|i: int| 0 <= i < t.len() && t[i].key() == k {
            let i = choose|i: int| 0 <= i < t.len() && t[i].key() == k;
            assert(s[i + 1].key() == k);
            assert(str_lt(s[0].key(), s[i + 1].key()));
            lemma_str_lt_irreflexive(k);
        }
    }
    assert forall|i: int| 0 <= i < t.len() implies m2[#[trigger] t[i].key()] == t[i] by {
        assert(t[i] == s[i + 1]);
        assert(str_lt(s[0].key(), s[i + 1].key()));
        lemma_str_lt_irreflexive(k0);
    }
}

/// The number of keys of a map held in order of keys is the number of items.
pub proof fn lemma_keyed_len<T: Keyed>(s: Seq<T>, m: Map<Seq<char>, T>)
    requires
        keyed(s, m),
    ensures
        m.dom().finite(),
        m.dom().len() == s.len(),
{
    let keys = s.map_values(|t: T| t.key());
    assert forall|a: int, b: int| 0 <= a < keys.len() && 0 <= b < keys.len() && a != b implies keys[a]
        != keys[b] by {
        lemma_str_lt_irreflexive(keys[a]);
        if a < b {
            assert(str_lt(s[a].key(), s[b].key()));
        } else {
            assert(str_lt(s[b].key(), s[a].key()));
        }
    }
    assert(keys.no_duplicates());
    assert forall|k: Seq<char>| m.dom().contains(k) <==> keys.to_set().contains(k) by {
        if m.contains_key(k) {
            let j = choose|j: int| 0 <= j < s.len() && s[j].key() == k;
            assert(keys[j] == k);
        }
        if keys.to_set().contains(k) {
            let j = choose|j: int| 0 <= j < keys.len() && keys[j] == k;
            assert(s[j].key() == k);
        }
    }
    assert(m.dom() =~= keys.to_set());
    keys.unique_seq_to_set();
}

/// Items in strictly increasing order of keys, with the map from key to item.
pub struct KeyedVec<T: KeyedItem> {
    /// The items, by increasing key.
    items: Vec<T>,
    /// Each key mapped to its item.
    map: Ghost<Map<Seq<char>, T>>,
}

impl<T: KeyedItem> View for KeyedVec<T> {
    type V = Map<Seq<char>, T>;

    closed spec fn view(&self) -> Map<Seq<char>, T> {
        self.map@
    }
}

impl<T: KeyedItem> KeyedVec<T> {
    #[verifier::type_invariant]
    spec fn inv(self) -> bool {
        keyed(self.items@, self.map@)
    }

    /// The items, by increasing key.
    pub closed spec fn spec_items(&self) -> Seq<T> {
        self.items@
    }

    /// Creates an empty sequence.
    pub fn new() -> (r: Self)
        ensures
            r@ == Map::<Seq<char>, T>::empty(),
            r.spec_items().len() == 0,
    {
        let r = KeyedVec { items: Vec::new(), map: Ghost(Map::empty()) };
        assert(keyed(r.items@, r.map@));
        r
    }

    /// Locates `key`: at an index, or before the items from an index on.
    fn position(&self, key: &str) -> (r: Result<usize, usize>)
        ensures
            match r {
                Ok(i) => i < self.items@.len() && self.items@[i as int].key() == key@,
                Err(i) => {
                    &&& i <= self.items@.len()
                    &&& forall|k: int| 0 <= k < i ==> str_lt(#[trigger] self.items@[k].key(), key@)
                    &&& forall|k: int|
                        i <= k < self.items@.len() ==> str_lt(key@, #[trigger] self.items@[k].key())
                },
            },
            r is Err <==> !self@.contains_key(key@),
    {
        proof {
            use_type_invariant(self);
        }
        let n = self.items.len();
        let mut i: usize = 0;
        while i < n
            invariant
                n == self.items@.len(),
                i <= n,
                keyed(self.items@, self.map@),
                forall|k: int| 0 <= k < i ==> str_lt(#[trigger] self.items@[k].key(), key@),
            decreases n - i,
        {
            match compare_str(self.items[i].key_str(), key) {
                Ordering::Less => {},
                Ordering::Equal => {
                    return Ok(i);
                },
                Ordering::Greater => {
                    proof {
                        assert forall|k: int| i <= k < n implies str_lt(
                            key@,
                            #[trigger] self.items@[k].key(),
                        ) by {
                            if k > i {
                                lemma_str_lt_transitive(
                                    key@,
                                    self.items@[i as int].key(),
                                    self.items@[k].key(),
                                );
                            }
                        }
                        Self::lemma_absent(self.items@, self.map@, key@, i as int);
                    }
                    return Err(i);
                },
            }
            i += 1;
        }
        proof {
            Self::lemma_absent(self.items@, self.map@, key@, n as int);
        }
        Err(n)
    }

    proof fn lemma_absent(s: Seq<T>, m: Map<Seq<char>, T>, key: Seq<char>, i: int)
        requires
            keyed(s, m),
            0 <= i <= s.len(),
            forall|k: int| 0 <= k < i ==> str_lt(#[trigger] s[k].key(), key),
            forall|k: int| i <= k < s.len() ==> str_lt(key, #[trigger] s[k].key()),
        ensures
            !m.contains_key(key),
    {
        if m.contains_key(key) {
            let j = choose|j: int| 0 <= j < s.len() && s[j].key() == key;
            lemma_str_lt_irreflexive(key);
            if j < i {
                assert(str_lt(s[j].key(), key));
            } else {
                assert(str_lt(key, s[j].key()));
            }
        }
    }

    /// Returns the item with the given key, if there is one.
    pub fn get(&self, key: &str) -> (r: Option<&T>)
        ensures
            match r {
                Some(t) => self@.contains_key(key@) && *t == self@[key@] && t.key() == key@,
                None => !self@.contains_key(key@),
            },
    {
        proof {
            use_type_invariant(self);
        }
        match self.position(key) {
            Ok(i) => Some(&self.items[i]),
            Err(_) => None,
        }
    }

    /// Puts `item` in the place of its key, and returns the item that it
    /// replaces, if any.
    pub fn insert(&mut self, item: T) -> (r: Option<T>)
        ensures
            final(self)@ == old(self)@.insert(item.key(), item),
            match r {
                Some(t) => old(self)@.contains_key(item.key()) && t == old(self)@[item.key()]
                    && t.key() == item.key(),
                None => !old(self)@.contains_key(item.key()),
            },
    {
        proof {
            use_type_invariant(&*self);
        }
        let pos = self.position(item.key_str());
        let mut this = KeyedVec::new();
        std::mem::swap(self, &mut this);
        proof {
            use_type_invariant(&this);
        }
        let KeyedVec { items: mut v, map } = this;
        let ghost old_v = v@;
        let ghost key = item.key();
        let ghost m = map@.insert(key, item);
        let replaced = match pos {
            Ok(i) => {
                let prev = v.remove(i);
                v.insert(i, item);
                assert(v@ =~= old_v.update(i as int, v@[i as int]));
                assert forall|a: int, b: int|
                    #![trigger v@[a], v@[b]]
                    0 <= a < b < v@.len() implies str_lt(v@[a].key(), v@[b].key()) by {
                    assert(old_v[a].key() == v@[a].key());
                    assert(old_v[b].key() == v@[b].key());
                }
                assert forall|j: int| 0 <= j < v@.len() implies m[#[trigger] v@[j].key()]
                    == v@[j] by {
                    if j != i {
                        assert(v@[j] == old_v[j]);
                        assert(v@[j].key() != key) by {
                            if j < i {
                                assert(str_lt(old_v[j].key(), old_v[i as int].key()));
                            } else {
                                assert(str_lt(old_v[i as int].key(), old_v[j].key()));
                            }
                            lemma_str_lt_irreflexive(v@[j].key());
                        }
                    }
                }
                assert forall|k: Seq<char>| #[trigger] m.contains_key(k) <==> exists|j: int|
                    0 <= j < v@.len() && v@[j].key() == k by {
                    if m.contains_key(k) && k != key {
                        let j = choose|j: int| 0 <= j < old_v.len() && old_v[j].key() == k;
                        assert(v@[j].key() == k);
                    }
                    if exists|j: int| 0 <= j < v@.len() && v@[j].key() == k {
                        let j = choose|j: int| 0 <= j < v@.len() && v@[j].key() == k;
                        if j != i {
                            assert(old_v[j].key() == k);
                        }
                    }
                }
                Some(prev)
            },
            Err(i) => {
                v.insert(i, item);
                assert(v@ =~= old_v.insert(i as int, v@[i as int]));
                assert forall|a: int, b: int|
                    #![trigger v@[a], v@[b]]
                    0 <= a < b < v@.len() implies str_lt(v@[a].key(), v@[b].key()) by {
                    if a < i && b > i {
                        assert(old_v[b - 1] == v@[b]);
                    } else if a > i {
                        assert(old_v[a - 1] == v@[a] && old_v[b - 1] == v@[b]);
                    }
                }
                assert forall|k: Seq<char>| #[trigger] m.contains_key(k) <==> exists|j: int|
                    0 <= j < v@.len() && v@[j].key() == k by {
                    if m.contains_key(k) && k != key {
                        let j = choose|j: int| 0 <= j < old_v.len() && old_v[j].key() == k;
                        if j < i {
                            assert(v@[j].key() == k);
                        } else {
                            assert(v@[j + 1].key() == k);
                        }
                    }
                    if exists|j: int| 0 <= j < v@.len() && v@[j].key() == k {
                        let j = choose|j: int| 0 <= j < v@.len() && v@[j].key() == k;
                        if j < i {
                            assert(old_v[j].key() == k);
                        } else if j > i {
                            assert(old_v[j - 1].key() == k);
                        }
                    }
                }
                assert forall|j: int| 0 <= j < v@.len() implies m[#[trigger] v@[j].key()]
                    == v@[j] by {
                    lemma_str_lt_irreflexive(key);
                    if j < i {
                        assert(v@[j] == old_v[j]);
                    } else if j > i {
                        assert(v@[j] == old_v[j - 1]);
                    }
                }
                None
            },
        };
        *self = KeyedVec { items: v, map: Ghost(m) };
        replaced
    }

    /// Removes the item with the given key and returns it, if there is one.
    pub fn remove(&mut self, key: &str) -> (r: Option<T>)
        ensures
            final(self)@ == old(self)@.remove(key@),
            match r {
                Some(t) => old(self)@.contains_key(key@) && t == old(self)@[key@] && t.key()
                    == key@,
                None => !old(self)@.contains_key(key@),
            },
    {
        proof {
            use_type_invariant(&*self);
        }
        let pos = self.position(key);
        match pos {
            Err(_) => {
                assert(old(self)@.remove(key@) =~= old(self)@);
                None
            },
            Ok(i) => {
                let mut this = KeyedVec::new();
                std::mem::swap(self, &mut this);
                proof {
                    use_type_invariant(&this);
                }
                let KeyedVec { items: mut v, map } = this;
                let ghost old_v = v@;
                let ghost m = map@.remove(key@);
                let removed = v.remove(i);
                assert forall|a: int, b: int|
                    #![trigger v@[a], v@[b]]
                    0 <= a < b < v@.len() implies str_lt(v@[a].key(), v@[b].key()) by {
                    if a >= i {
                        assert(old_v[a + 1] == v@[a] && old_v[b + 1] == v@[b]);
                    } else if b >= i {
                        assert(old_v[a] == v@[a] && old_v[b + 1] == v@[b]);
                    }
                }
                assert forall|k: Seq<char>| #[trigger] m.contains_key(k) <==> exists|j: int|
                    0 <= j < v@.len() && v@[j].key() == k by {
                    if m.contains_key(k) {
                        let j = choose|j: int| 0 <= j < old_v.len() && old_v[j].key() == k;
                        if j < i {
                            assert(v@[j].key() == k);
                        } else {
                            assert(v@[j - 1].key() == k);
                        }
                    }
                    if exists|j: int| 0 <= j < v@.len() && v@[j].key() == k {
                        let j = choose|j: int| 0 <= j < v@.len() && v@[j].key() == k;
                        lemma_str_lt_irreflexive(k);
                        if j < i {
                            assert(old_v[j].key() == k);
                            assert(str_lt(old_v[j].key(), old_v[i as int].key()));
                        } else {
                            assert(old_v[j + 1].key() == k);
                            assert(str_lt(old_v[i as int].key(), old_v[j + 1].key()));
                        }
                    }
                }
                assert forall|j: int| 0 <= j < v@.len() implies m[#[trigger] v@[j].key()]
                    == v@[j] by {
                    lemma_str_lt_irreflexive(key@);
                    if j < i {
                        assert(v@[j] == old_v[j]);
                        assert(str_lt(old_v[j].key(), old_v[i as int].key()));
                    } else {
                        assert(v@[j] == old_v[j + 1]);
                        assert(str_lt(old_v[i as int].key(), old_v[j + 1].key()));
                    }
                }
                *self = KeyedVec { items: v, map: Ghost(m) };
                Some(removed)
            },
        }
    }

    /// Returns the number of items.
    pub fn len(&self) -> (r: usize)
        ensures
            r == self@.len(),
            r == self.spec_items().len(),
    {
        proof {
            use_type_invariant(self);
            lemma_keyed_len(self.items@, self.map@);
        }
        self.items.len()
    }

    /// Returns the items, by increasing key.
    pub fn items(&self) -> (r: &Vec<T>)
        ensures
            r@ == self.spec_items(),
            keyed(r@, self@),
    {
        proof {
            use_type_invariant(self);
        }
        &self.items
    }
}

} // verus!
