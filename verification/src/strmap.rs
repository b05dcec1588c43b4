//! An insertion-ordered map from field names to values. Insertion keeps the
//! position of an existing key (only the value changes), new keys go to the
//! end, and lookups return the first (only) entry with the key. Every place
//! the engine needs a field map or a name-keyed dictionary uses this type,
//! since the wire format gives field order meaning.
use vstd::prelude::*;

verus! {

use crate::strings::str_eq;

/// Index of the first entry of `s` whose key is `k`, or -1.
pub open spec fn map_find<T>(s: Seq<(Seq<char>, T)>, k: Seq<char>) -> int
    decreases s.len(),
{
    if s.len() == 0 {
        -1
    } else if s[0].0 == k {
        0
    } else {
        let r = map_find(s.drop_first(), k);
        if r == -1 {
            -1
        } else {
            r + 1
        }
    }
}

/// What the first entry with key `k` holds, if any.
pub open spec fn spec_map_get<T>(s: Seq<(Seq<char>, T)>, k: Seq<char>) -> Option<T> {
    let i = map_find(s, k);
    if i >= 0 {
        Some(s[i].1)
    } else {
        None
    }
}

/// `k` has an entry in `s`.
pub open spec fn spec_map_has<T>(s: Seq<(Seq<char>, T)>, k: Seq<char>) -> bool {
    map_find(s, k) >= 0
}

/// Insertion-ordered update: replace in place when the key exists,
/// append otherwise.
pub open spec fn spec_map_insert<T>(s: Seq<(Seq<char>, T)>, k: Seq<char>, v: T) -> Seq<
    (Seq<char>, T),
> {
    let i = map_find(s, k);
    if i >= 0 {
        s.update(i, (k, v))
    } else {
        s.push((k, v))
    }
}

/// Insert only when the key is absent.
pub open spec fn spec_map_or_insert<T>(s: Seq<(Seq<char>, T)>, k: Seq<char>, v: T) -> Seq<
    (Seq<char>, T),
> {
    if map_find(s, k) >= 0 {
        s
    } else {
        s.push((k, v))
    }
}

/// `map_find` returns the position of the first entry with the key,
/// or -1 when there is none.
pub proof fn lemma_map_find<T>(s: Seq<(Seq<char>, T)>, k: Seq<char>)
    ensures
        -1 <= map_find(s, k) < s.len(),
        map_find(s, k) >= 0 ==> s[map_find(s, k)].0 == k,
        forall|j: int|
            0 <= j < (if map_find(s, k) >= 0 {
                map_find(s, k)
            } else {
                s.len() as int
            }) ==> (#[trigger] s[j]).0 != k,
    decreases s.len(),
{
    if s.len() > 0 && s[0].0 != k {
        lemma_map_find(s.drop_first(), k);
        assert(forall|j: int| 1 <= j < s.len() ==> (#[trigger] s[j]) == s.drop_first()[j - 1]);
    }
}

/// An insertion-ordered map with `String` keys; its view pairs each key's
/// characters with the value's view, in map order.
#[derive(Debug)]
pub struct StrMap<V> {
    entries: Vec<(String, V)>,
}

impl<V: View> View for StrMap<V> {
    type V = Seq<(Seq<char>, V::V)>;

    closed spec fn view(&self) -> Seq<(Seq<char>, V::V)> {
        self.entries@.map_values(|e: (String, V)| (e.0@, e.1@))
    }
}

impl<V: View> StrMap<V> {
    pub fn new() -> (r: Self)
        ensures
            r@ == Seq::<(Seq<char>, V::V)>::empty(),
    {
        let r = StrMap { entries: Vec::new() };
        proof {
            assert(r@ =~= Seq::<(Seq<char>, V::V)>::empty());
        }
        r
    }

    pub fn len(&self) -> (r: usize)
        ensures
            r == self@.len(),
    {
        self.entries.len()
    }

    /// Position of `key` in map order, when present.
    pub fn index_of(&self, key: &str) -> (r: Option<usize>)
        ensures
            match r {
                Some(i) => map_find(self@, key@) == i,
                None => map_find(self@, key@) == -1,
            },
    {
        let ghost s = self@;
        proof {
            lemma_map_find(s, key@);
        }
        let mut i: usize = 0;
        while i < self.entries.len()
            invariant
                0 <= i <= self.entries.len(),
                s == self@,
                forall|j: int| 0 <= j < i ==> (#[trigger] s[j]).0 != key@,
                -1 <= map_find(s, key@) < s.len(),
                map_find(s, key@) >= 0 ==> s[map_find(s, key@)].0 == key@,
                forall|j: int|
                    0 <= j < (if map_find(s, key@) >= 0 {
                        map_find(s, key@)
                    } else {
                        s.len() as int
                    }) ==> (#[trigger] s[j]).0 != key@,
            decreases self.entries.len() - i,
        {
            if str_eq(self.entries[i].0.as_str(), key) {
                assert(s[i as int].0 == key@);
                return Some(i);
            }
            assert(s[i as int].0 != key@);
            i = i + 1;
        }
        None
    }

    pub fn has_key(&self, key: &str) -> (r: bool)
        ensures
            r == spec_map_has(self@, key@),
    {
        match self.index_of(key) {
            Some(_) => true,
            None => false,
        }
    }

    pub fn get(&self, key: &str) -> (r: Option<&V>)
        ensures
            match r {
                Some(v) => spec_map_get(self@, key@) == Some(v@),
                None => spec_map_get(self@, key@) is None,
            },
    {
        proof {
            lemma_map_find(self@, key@);
        }
        match self.index_of(key) {
            Some(i) => Some(&self.entries[i].1),
            None => None,
        }
    }

    /// Put `value` under `key`: in place when the key exists, at the end
    /// otherwise.
    pub fn insert(&mut self, key: String, value: V)
        ensures
            final(self)@ == spec_map_insert(old(self)@, key@, value@),
    {
        let ghost s = old(self)@;
        match self.index_of(key.as_str()) {
            Some(i) => {
                proof {
                    lemma_map_find(s, key@);
                }
                self.entries[i] = (key, value);
                proof {
                    assert(self@ =~= s.update(map_find(s, key@), (key@, value@)));
                }
            },
            None => {
                self.entries.push((key, value));
                proof {
                    assert(self@ =~= s.push((key@, value@)));
                }
            },
        }
    }

    /// Put `value` under `key` only when the key is absent.
    pub fn or_insert(&mut self, key: String, value: V)
        ensures
            final(self)@ == spec_map_or_insert(old(self)@, key@, value@),
    {
        let ghost s = old(self)@;
        match self.index_of(key.as_str()) {
            Some(_) => {
                proof {
                    assert(self@ =~= s);
                }
            },
            None => {
                self.entries.push((key, value));
                proof {
                    assert(self@ =~= s.push((key@, value@)));
                }
            },
        }
    }

    /// Change the value at position `i`, keeping its key.
    pub fn set_value_at(&mut self, i: usize, value: V)
        requires
            i < old(self)@.len(),
        ensures
            final(self)@ == old(self)@.update(i as int, (old(self)@[i as int].0, value@)),
    {
        let mut pair = self.entries.remove(i);
        pair.1 = value;
        self.entries.insert(i, pair);
        proof {
            assert(self@ =~= old(self)@.update(i as int, (old(self)@[i as int].0, value@)));
        }
    }

    pub fn key_at(&self, i: usize) -> (r: &String)
        requires
            i < self@.len(),
        ensures
            r@ == self@[i as int].0,
    {
        &self.entries[i].0
    }

    pub fn value_at(&self, i: usize) -> (r: &V)
        requires
            i < self@.len(),
        ensures
            r@ == self@[i as int].1,
    {
        &self.entries[i].1
    }
}

impl StrMap<String> {
    /// A copy with the same entries in the same order.
    pub fn clone_map(&self) -> (r: Self)
        ensures
            r@ == self@,
    {
        let mut entries: Vec<(String, String)> = Vec::new();
        let mut i: usize = 0;
        while i < self.entries.len()
            invariant
                0 <= i <= self.entries.len(),
                entries@ =~= self.entries@.subrange(0, i as int),
            decreases self.entries.len() - i,
        {
            let k = self.entries[i].0.clone();
            let v = self.entries[i].1.clone();
            entries.push((k, v));
            i = i + 1;
        }
        proof {
            assert(entries@ =~= self.entries@);
        }
        let r = StrMap { entries };
        proof {
            assert(r@ =~= self@);
        }
        r
    }
}

} // verus!
