//! Per-owner lists of record ids (which escrows or deliveries a sender,
//! recipient or driver takes part in), read back in bounded pages.
use vstd::prelude::*;
use std::collections::HashMap;
use crate::types::{Address, pair_key, make_pair_key};

verus! {

broadcast use vstd::std_specs::hash::group_hash_axioms;

/// The most ids a page returns.
pub const MAX_PAGE: u32 = 100;

/// Id lists keyed by `pair_key(owner, kind)`.
pub struct IdIndex {
    pub lists: HashMap<u128, Vec<u64>>,
}

/// The ids listed for `owner` under `kind`, oldest first.
pub open spec fn ids_in(m: Map<u128, Seq<u64>>, owner: Address, kind: u32) -> Seq<u64> {
    if m.contains_key(pair_key(owner.id, kind as u64)) {
        m[pair_key(owner.id, kind as u64)]
    } else {
        Seq::empty()
    }
}

/// Every list is short enough for its length to be a `u32`.
pub open spec fn lists_bounded(m: Map<u128, Seq<u64>>) -> bool {
    forall|k: u128| m.contains_key(k) ==> m[k].len() <= u32::MAX
}

/// The page of `s` starting at `offset`, at most `min(limit, 100)` long.
pub open spec fn page_of(s: Seq<u64>, offset: u32, limit: u32) -> Seq<u64> {
    let len = s.len();
    let lim = if limit < MAX_PAGE { limit as int } else { MAX_PAGE as int };
    let start = if offset < len { offset as int } else { len as int };
    let stop = if offset + lim < len { offset + lim } else { len as int };
    s.subrange(start, stop)
}

impl View for IdIndex {
    type V = Map<u128, Seq<u64>>;

    open spec fn view(&self) -> Map<u128, Seq<u64>> {
        self.lists@.map_values(|v: Vec<u64>| v@)
    }
}

impl IdIndex {
    pub fn new() -> (x: IdIndex)
        ensures
            x@ == Map::<u128, Seq<u64>>::empty(),
    {
        let x = IdIndex { lists: HashMap::new() };
        assert(x@ =~= Map::<u128, Seq<u64>>::empty());
        x
    }

    /// Number of ids listed for `owner` under `kind`.
    pub fn count(&self, owner: Address, kind: u32) -> (n: usize)
        ensures
            n == ids_in(self@, owner, kind).len(),
    {
        let k = make_pair_key(owner.id, kind as u64);
        match self.lists.get(&k) {
            Some(v) => v.len(),
            None => 0,
        }
    }

    /// Append `id` to the list of `owner` under `kind`.
    pub fn push(&mut self, owner: Address, kind: u32, id: u64)
        ensures
            final(self)@ == old(self)@.insert(
                pair_key(owner.id, kind as u64),
                ids_in(old(self)@, owner, kind).push(id),
            ),
    {
        let k = make_pair_key(owner.id, kind as u64);
        let mut v = match self.lists.remove(&k) {
            Some(v) => v,
            None => Vec::new(),
        };
        v.push(id);
        self.lists.insert(k, v);
        assert(self@ =~= old(self)@.insert(k, ids_in(old(self)@, owner, kind).push(id)));
    }

    /// The ids of `owner` under `kind` from `offset`, at most
    /// `min(limit, 100)` of them.
    pub fn page(&self, owner: Address, kind: u32, offset: u32, limit: u32) -> (out: Vec<u64>)
        ensures
            out@ == page_of(ids_in(self@, owner, kind), offset, limit),
    {
        let k = make_pair_key(owner.id, kind as u64);
        let mut out: Vec<u64> = Vec::new();
        match self.lists.get(&k) {
            None => {
                assert(out@ =~= page_of(ids_in(self@, owner, kind), offset, limit));
                out
            },
            Some(v) => {
                let ghost s = v@;
                assert(s == ids_in(self@, owner, kind));
                let len = v.len();
                let lim: u64 = if limit < MAX_PAGE { limit as u64 } else { MAX_PAGE as u64 };
                let start: usize = if (offset as usize) < len { offset as usize } else { len };
                let stop: usize = if (offset as u64) + lim < (len as u64) { ((offset as u64) + lim) as usize } else { len };
                let mut i = start;
                while i < stop
                    invariant
                        start <= i <= stop <= len,
                        len == s.len(),
                        v@ == s,
                        out@ == s.subrange(start as int, i as int),
                    decreases stop - i,
                {
                    out.push(v[i]);
                    i = i + 1;
                    assert(out@ =~= s.subrange(start as int, i as int));
                }
                assert(out@ =~= page_of(ids_in(self@, owner, kind), offset, limit));
                out
            },
        }
    }
}

} // verus!
