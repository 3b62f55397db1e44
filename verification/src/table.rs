//! A hash table keyed by (session id, endpoint id) pairs.
//!
//! Each pair is stored under one 128-bit key, the session id in the high 64
//! bits and the endpoint id in the low 64 bits, so that the standard hash map
//! can be used with its specified integer keys.
use std::collections::HashMap;
use vstd::prelude::*;

verus! {

broadcast use vstd::std_specs::hash::group_hash_axioms;

use vstd::std_specs::hash::spec_keys_iter;
use vstd::std_specs::iter::IteratorSpec;

/// 2^64.
pub open spec fn two_to_64() -> int {
    0x1_0000_0000_0000_0000
}

/// The 128-bit key of a pair.
pub open spec fn pack(k: (u64, u64)) -> u128 {
    (k.0 as int * two_to_64() + k.1 as int) as u128
}

/// The pair of a 128-bit key.
pub open spec fn unpack(x: u128) -> (u64, u64) {
    ((x as int / two_to_64()) as u64, (x as int % two_to_64()) as u64)
}

/// Packing and unpacking are inverse to each other.
pub proof fn lemma_pack_unpack(k: (u64, u64), x: u128)
    ensures
        unpack(pack(k)) == k,
        pack(unpack(x)) == x,
{
    let c = two_to_64();
    let a = k.0 as int;
    let b = k.1 as int;
    assert(0 <= a * c + b < c * c) by (nonlinear_arith)
        requires
            0 <= a < c,
            0 <= b < c,
            c == 0x1_0000_0000_0000_0000,
    ;
    assert((a * c + b) / c == a && (a * c + b) % c == b) by (nonlinear_arith)
        requires
            0 <= a,
            0 <= b < c,
            c > 0,
    ;
    let y = x as int;
    assert(y == (y / c) * c + y % c && 0 <= y % c < c && 0 <= y / c < c) by (nonlinear_arith)
        requires
            0 <= y < c * c,
            c > 0,
    ;
}

fn pack_key(k: (u64, u64)) -> (r: u128)
    ensures
        r == pack(k),
{
    proof {
        lemma_pack_unpack(k, 0);
    }
    (k.0 as u128) * 0x1_0000_0000_0000_0000u128 + (k.1 as u128)
}

fn unpack_key(x: u128) -> (r: (u64, u64))
    ensures
        r == unpack(x),
{
    proof {
        lemma_pack_unpack((0, 0), x);
    }
    ((x / 0x1_0000_0000_0000_0000u128) as u64, (x % 0x1_0000_0000_0000_0000u128) as u64)
}

/// Values keyed by (session id, endpoint id).
pub struct KeyedTable<V> {
    map: HashMap<u128, V>,
}

impl<V> KeyedTable<V> {
    /// The table as a map from pairs to values.
    pub closed spec fn view_map(&self) -> Map<(u64, u64), V> {
        Map::new(|k: (u64, u64)| self.map@.contains_key(pack(k)), |k: (u64, u64)| self.map@[pack(k)])
    }

    proof fn lemma_view_dom(&self)
        ensures
            self.view_map().dom() == self.map@.dom().map(|x: u128| unpack(x)),
            self.view_map().dom().finite(),
            self.view_map().dom().len() == self.map@.dom().len(),
    {
        let d = self.map@.dom();
        let f = |x: u128| unpack(x);
        assert forall|k: (u64, u64)| #[trigger]
            self.view_map().dom().contains(k) == d.map(f).contains(k) by {
            lemma_pack_unpack(k, 0);
            if d.map(f).contains(k) {
                let x = choose|x: u128| d.contains(x) && f(x) == k;
                lemma_pack_unpack(k, x);
            }
            if d.contains(pack(k)) {
                assert(f(pack(k)) == k);
            }
        }
        assert(self.view_map().dom() =~= d.map(f));
        assert(vstd::relations::injective_on(f, d)) by {
            assert forall|x1: u128, x2: u128|
                d.contains(x1) && d.contains(x2) && #[trigger] f(x1) == #[trigger] f(x2) implies x1
                == x2 by {
                lemma_pack_unpack((0, 0), x1);
                lemma_pack_unpack((0, 0), x2);
            }
        }
        vstd::set_lib::lemma_map_size(d, d.map(f), f);
    }

    /// A table holds finitely many entries.
    pub proof fn lemma_finite(&self)
        ensures
            self.view_map().dom().finite(),
    {
        self.lemma_view_dom();
    }

    /// An empty table.
    pub fn new() -> (r: Self)
        ensures
            r.view_map() == Map::<(u64, u64), V>::empty(),
            r.view_map().dom().finite(),
    {
        let r = KeyedTable { map: HashMap::new() };
        proof {
            assert(r.view_map() =~= Map::<(u64, u64), V>::empty());
        }
        r
    }

    /// Number of entries.
    pub fn len(&self) -> (r: usize)
        ensures
            r == self.view_map().len(),
            self.view_map().dom().finite(),
    {
        proof {
            self.lemma_view_dom();
        }
        self.map.len()
    }

    /// Whether `key` is present.
    pub fn contains(&self, key: (u64, u64)) -> (r: bool)
        ensures
            r == self.view_map().contains_key(key),
    {
        self.map.contains_key(&pack_key(key))
    }

    /// The value stored under `key`.
    pub fn get(&self, key: (u64, u64)) -> (r: Option<&V>)
        ensures
            match r {
                Some(v) => self.view_map().contains_key(key) && *v == self.view_map()[key],
                None => !self.view_map().contains_key(key),
            },
    {
        self.map.get(&pack_key(key))
    }

    /// Store `value` under `key`, replacing and returning what was there.
    pub fn insert(&mut self, key: (u64, u64), value: V) -> (r: Option<V>)
        ensures
            final(self).view_map() == old(self).view_map().insert(key, value),
            final(self).view_map().dom().finite(),
            match r {
                Some(v) => old(self).view_map().contains_key(key) && v == old(self).view_map()[key],
                None => !old(self).view_map().contains_key(key),
            },
    {
        let r = self.map.insert(pack_key(key), value);
        proof {
            assert forall|k: (u64, u64)| #[trigger] self.map@.contains_key(pack(k)) == (k == key
                || old(self).map@.contains_key(pack(k))) by {
                lemma_pack_unpack(k, 0);
                lemma_pack_unpack(key, 0);
            }
            assert forall|k: (u64, u64)| #[trigger]
                self.map@.contains_key(pack(k)) implies self.map@[pack(k)] == (if k == key {
                value
            } else {
                old(self).map@[pack(k)]
            }) by {
                lemma_pack_unpack(k, 0);
                lemma_pack_unpack(key, 0);
            }
            assert(self.view_map() =~= old(self).view_map().insert(key, value));
            self.lemma_view_dom();
        }
        r
    }

    /// Remove the entry under `key`, returning its value.
    pub fn remove(&mut self, key: (u64, u64)) -> (r: Option<V>)
        ensures
            final(self).view_map() == old(self).view_map().remove(key),
            final(self).view_map().dom().finite(),
            match r {
                Some(v) => old(self).view_map().contains_key(key) && v == old(self).view_map()[key],
                None => !old(self).view_map().contains_key(key),
            },
    {
        let r = self.map.remove(&pack_key(key));
        proof {
            assert forall|k: (u64, u64)| #[trigger] self.map@.contains_key(pack(k)) == (k != key
                && old(self).map@.contains_key(pack(k))) by {
                lemma_pack_unpack(k, 0);
                lemma_pack_unpack(key, 0);
            }
            assert forall|k: (u64, u64)| #[trigger]
                self.map@.contains_key(pack(k)) implies self.map@[pack(k)] == old(
                self,
            ).map@[pack(k)] by {
                lemma_pack_unpack(k, 0);
                lemma_pack_unpack(key, 0);
            }
            assert(self.view_map() =~= old(self).view_map().remove(key));
            self.lemma_view_dom();
        }
        r
    }

    /// The keys present, each once, in no particular order.
    pub fn keys(&self) -> (r: Vec<(u64, u64)>)
        ensures
            r@.no_duplicates(),
            r@.to_set() == self.view_map().dom(),
    {
        let mut out: Vec<(u64, u64)> = Vec::new();
        let ghost s = spec_keys_iter(&self.map).remaining();
        proof {
            self.lemma_view_dom();
        }
        for x in it: self.map.keys()
            invariant
                it.seq() == s,
                s.unref().to_set() == self.map@.dom(),
                s.no_duplicates(),
                out@.len() == it.index(),
                forall|j: int| 0 <= j < it.index() ==> out@[j] == unpack(*s[j]),
        {
            out.push(unpack_key(*x));
        }
        proof {
            assert(out@.len() == s.len());
            assert forall|a: int, b: int|
                0 <= a < out@.len() && 0 <= b < out@.len() && a != b implies out@[a]
                != out@[b] by {
                lemma_pack_unpack((0, 0), *s[a]);
                lemma_pack_unpack((0, 0), *s[b]);
                assert(s[a] != s[b]);
            }
            assert forall|k: (u64, u64)| #[trigger]
                out@.to_set().contains(k) == self.view_map().dom().contains(k) by {
                lemma_pack_unpack(k, 0);
                if out@.contains(k) {
                    let j = choose|j: int| 0 <= j < out@.len() && out@[j] == k;
                    lemma_pack_unpack(k, *s[j]);
                    assert(s.unref()[j] == *s[j]);
                    assert(s.unref().contains(*s[j]));
                }
                if self.view_map().dom().contains(k) {
                    assert(s.unref().to_set().contains(pack(k)));
                    let j = choose|j: int| 0 <= j < s.unref().len() && s.unref()[j] == pack(k);
                    assert(out@[j] == k);
                }
            }
            assert(out@.to_set() =~= self.view_map().dom());
        }
        out
    }
}

} // verus!
