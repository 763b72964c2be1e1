//! Small collections keyed by source positions: an insertion-ordered set of
//! positions and a map from positions to chain kinds.

use std::collections::HashMap;
use vstd::prelude::*;

verus! {

/// `s` with `x` appended unless it already holds `x`.
pub open spec fn seq_insert(s: Seq<u32>, x: u32) -> Seq<u32> {
    if s.contains(x) {
        s
    } else {
        s.push(x)
    }
}

/// A set of positions that remembers the order of first insertion.
pub struct PosSet {
    items: Vec<u32>,
}

impl PosSet {
    /// The positions in order of first insertion.
    pub closed spec fn seq(&self) -> Seq<u32> {
        self.items@
    }

    /// The empty set.
    pub fn new() -> (r: PosSet)
        ensures
            r.seq() == Seq::<u32>::empty(),
    {
        PosSet { items: Vec::new() }
    }

    /// Whether `x` is in the set.
    pub fn contains(&self, x: u32) -> (r: bool)
        ensures
            r == self.seq().contains(x),
    {
        let mut i: usize = 0;
        while i < self.items.len()
            invariant
                i <= self.items@.len(),
                forall|j: int| 0 <= j < i ==> self.items@[j] != x,
            decreases self.items@.len() - i,
        {
            if self.items[i] == x {
                assert(self.items@[i as int] == x);
                return true;
            }
            i = i + 1;
        }
        false
    }

    /// Adds `x`; nothing changes when it is already there.
    pub fn insert(&mut self, x: u32)
        ensures
            final(self).seq() == seq_insert(old(self).seq(), x),
    {
        if !self.contains(x) {
            self.items.push(x);
        }
    }

    /// The positions in order of first insertion.
    pub fn to_vec(&self) -> (r: Vec<u32>)
        ensures
            r@ == self.seq(),
    {
        let mut r: Vec<u32> = Vec::new();
        let mut i: usize = 0;
        while i < self.items.len()
            invariant
                i <= self.items@.len(),
                r@ =~= self.items@.take(i as int),
            decreases self.items@.len() - i,
        {
            r.push(self.items[i]);
            i = i + 1;
        }
        assert(self.items@.take(self.items@.len() as int) =~= self.items@);
        r
    }
}

/// A map from positions to chain kinds.
pub struct KindMap {
    entries: HashMap<u32, u8>,
}

impl KindMap {
    /// The map.
    pub closed spec fn map(&self) -> Map<u32, u8> {
        self.entries@
    }

    /// The empty map.
    pub fn new() -> (r: KindMap)
        ensures
            r.map() == Map::<u32, u8>::empty(),
    {
        KindMap { entries: HashMap::new() }
    }

    /// The kind recorded for `k`.
    pub fn get(&self, k: u32) -> (r: Option<u8>)
        ensures
            r == (if self.map().contains_key(k) { Some(self.map()[k]) } else { None }),
    {
        broadcast use vstd::std_specs::hash::group_hash_axioms;
        match self.entries.get(&k) {
            Some(v) => Some(*v),
            None => None,
        }
    }

    /// Records `v` for `k`, replacing an earlier kind.
    pub fn insert(&mut self, k: u32, v: u8)
        ensures
            final(self).map() == old(self).map().insert(k, v),
    {
        broadcast use vstd::std_specs::hash::group_hash_axioms;
        self.entries.insert(k, v);
    }
}

} // verus!
