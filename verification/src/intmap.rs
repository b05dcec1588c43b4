//! An insertion-ordered map with `u64` keys: the dictionary index by tag
//! number and the order ledger keyed by order id.
use vstd::prelude::*;

verus! {

/// Index of the first entry of `s` whose key is `k`, or -1.
pub open spec fn int_find<T>(s: Seq<(u64, T)>, k: u64) -> int
    decreases s.len(),
{
    if s.len() == 0 {
        -1
    } else if s[0].0 == k {
        0
    } else {
        let r = int_find(s.drop_first(), k);
        if r == -1 {
            -1
        } else {
            r + 1
        }
    }
}

/// What the first entry with key `k` holds, if any.
pub open spec fn spec_int_get<T>(s: Seq<(u64, T)>, k: u64) -> Option<T> {
    let i = int_find(s, k);
    if i >= 0 {
        Some(s[i].1)
    } else {
        None
    }
}

/// `k` has an entry in `s`.
pub open spec fn spec_int_has<T>(s: Seq<(u64, T)>, k: u64) -> bool {
    int_find(s, k) >= 0
}

/// Replace in place when the key exists, append otherwise.
pub open spec fn spec_int_insert<T>(s: Seq<(u64, T)>, k: u64, v: T) -> Seq<(u64, T)> {
    let i = int_find(s, k);
    if i >= 0 {
        s.update(i, (k, v))
    } else {
        s.push((k, v))
    }
}

/// The entries without the one keyed `k` (unchanged when `k` is absent).
pub open spec fn spec_int_remove<T>(s: Seq<(u64, T)>, k: u64) -> Seq<(u64, T)> {
    let i = int_find(s, k);
    if i >= 0 {
        s.remove(i)
    } else {
        s
    }
}

/// `int_find` returns the position of the first entry with the key,
/// or -1 when there is none.
pub proof fn lemma_int_find<T>(s: Seq<(u64, T)>, k: u64)
    ensures
        -1 <= int_find(s, k) < s.len(),
        int_find(s, k) >= 0 ==> s[int_find(s, k)].0 == k,
        forall|j: int|
            0 <= j < (if int_find(s, k) >= 0 {
                int_find(s, k)
            } else {
                s.len() as int
            }) ==> (#[trigger] s[j]).0 != k,
    decreases s.len(),
{
    if s.len() > 0 && s[0].0 != k {
        lemma_int_find(s.drop_first(), k);
        assert(forall|j: int| 1 <= j < s.len() ==> (#[trigger] s[j]) == s.drop_first()[j - 1]);
    }
}

/// An insertion-ordered map with `u64` keys; its view pairs each key with
/// the value's view, in map order.
#[derive(Debug)]
pub struct IntMap<V> {
    entries: Vec<(u64, V)>,
}

impl<V: View> View for IntMap<V> {
    type V = Seq<(u64, V::V)>;

    closed spec fn view(&self) -> Seq<(u64, V::V)> {
        self.entries@.map_values(|e: (u64, V)| (e.0, e.1@))
    }
}

impl<V: View> IntMap<V> {
    pub fn new() -> (r: Self)
        ensures
            r@ == Seq::<(u64, V::V)>::empty(),
    {
        let r = IntMap { entries: Vec::new() };
        proof {
            assert(r@ =~= Seq::<(u64, V::V)>::empty());
        }
        r
    }

    pub fn len(&self) -> (r: usize)
        ensures
            r == self@.len(),
    {
        self.entries.len()
    }

    /// Position of `key` in map order, when present.
    pub fn index_of(&self, key: u64) -> (r: Option<usize>)
        ensures
            match r {
                Some(i) => int_find(self@, key) == i,
                None => int_find(self@, key) == -1,
            },
    {
        let ghost s = self@;
        proof {
            lemma_int_find(s, key);
        }
        let mut i: usize = 0;
        while i < self.entries.len()
            invariant
                0 <= i <= self.entries.len(),
                s == self@,
                forall|j: int| 0 <= j < i ==> (#[trigger] s[j]).0 != key,
                -1 <= int_find(s, key) < s.len(),
                int_find(s, key) >= 0 ==> s[int_find(s, key)].0 == key,
                forall|j: int|
                    0 <= j < (if int_find(s, key) >= 0 {
                        int_find(s, key)
                    } else {
                        s.len() as int
                    }) ==> (#[trigger] s[j]).0 != key,
            decreases self.entries.len() - i,
        {
            if self.entries[i].0 == key {
                assert(s[i as int].0 == key);
                return Some(i);
            }
            assert(s[i as int].0 != key);
            i = i + 1;
        }
        None
    }

    pub fn has_key(&self, key: u64) -> (r: bool)
        ensures
            r == spec_int_has(self@, key),
    {
        match self.index_of(key) {
            Some(_) => true,
            None => false,
        }
    }

    pub fn get(&self, key: u64) -> (r: Option<&V>)
        ensures
            match r {
                Some(v) => spec_int_get(self@, key) == Some(v@),
                None => spec_int_get(self@, key) is None,
            },
    {
        proof {
            lemma_int_find(self@, key);
        }
        match self.index_of(key) {
            Some(i) => Some(&self.entries[i].1),
            None => None,
        }
    }

    /// Put `value` under `key`: in place when the key exists, at the end
    /// otherwise.
    pub fn insert(&mut self, key: u64, value: V)
        ensures
            final(self)@ == spec_int_insert(old(self)@, key, value@),
    {
        let ghost s = old(self)@;
        match self.index_of(key) {
            Some(i) => {
                proof {
                    lemma_int_find(s, key);
                }
                self.entries[i] = (key, value);
                proof {
                    assert(self@ =~= s.update(int_find(s, key), (key, value@)));
                }
            },
            None => {
                self.entries.push((key, value));
                proof {
                    assert(self@ =~= s.push((key, value@)));
                }
            },
        }
    }

    /// Take the entry keyed `key` out; leaves the map unchanged when absent.
    pub fn remove(&mut self, key: u64)
        ensures
            final(self)@ == spec_int_remove(old(self)@, key),
    {
        let ghost s = old(self)@;
        match self.index_of(key) {
            Some(i) => {
                proof {
                    lemma_int_find(s, key);
                }
                self.entries.remove(i);
                proof {
                    assert(self@ =~= s.remove(int_find(s, key)));
                }
            },
            None => {
                proof {
                    assert(self@ =~= s);
                }
            },
        }
    }

    pub fn key_at(&self, i: usize) -> (r: u64)
        requires
            i < self@.len(),
        ensures
            r == self@[i as int].0,
    {
        self.entries[i].0
    }

    pub fn value_at(&self, i: usize) -> (r: &V)
        requires
            i < self@.len(),
        ensures
            r@ == self@[i as int].1,
    {
        &self.entries[i].1
    }

    /// Change the value at position `i`, keeping its key.
    pub fn set_value_at(&mut self, i: usize, value: V)
        requires
            i < old(self)@.len(),
        ensures
            final(self)@ == old(self)@.update(i as int, (old(self)@[i as int].0, value@)),
    {
        let k = self.entries[i].0;
        self.entries[i] = (k, value);
        proof {
            assert(self@ =~= old(self)@.update(i as int, (old(self)@[i as int].0, value@)));
        }
    }
}

} // verus!
