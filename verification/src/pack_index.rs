//! The ground truth held by one pack: its own index of object ids and offsets.

use vstd::prelude::*;
use crate::bytes::bytes_eq;

verus! {

/// One record of a per-pack index: an object id and the byte offset at which
/// the pack stores that object.
#[derive(Debug)]
pub struct PackIndexEntry {
    pub oid: Vec<u8>,
    pub pack_offset: u64,
}

/// The in-memory view of one pack's own index. The aggregate index is only a
/// cache of what these records say, so every cross-reference defers to them.
#[derive(Debug)]
pub struct PackIndex {
    pub entries: Vec<PackIndexEntry>,
}

/// The position of the first record at or after `j` whose object id is `oid`.
pub open spec fn pack_lookup(pes: Seq<PackIndexEntry>, oid: Seq<u8>, j: int) -> Option<int>
    decreases pes.len() - j,
{
    if j < 0 || j >= pes.len() {
        None
    } else if pes[j].oid@ == oid {
        Some(j)
    } else {
        pack_lookup(pes, oid, j + 1)
    }
}

impl PackIndex {
    /// Whether this pack records the given object id at all.
    pub open spec fn spec_contains(self, oid: Seq<u8>) -> bool {
        pack_lookup(self.entries@, oid, 0) is Some
    }

    /// Finds the record holding `oid`, if any.
    pub fn lookup(&self, oid: &Vec<u8>) -> (r: Option<usize>)
        ensures
            match r {
                Some(j) => j < self.entries@.len() && pack_lookup(self.entries@, oid@, 0)
                    == Some(j as int),
                None => pack_lookup(self.entries@, oid@, 0) is None,
            },
    {
        let mut j: usize = 0;
        while j < self.entries.len()
            invariant
                j <= self.entries.len(),
                pack_lookup(self.entries@, oid@, 0) == pack_lookup(self.entries@, oid@, j as int),
            decreases self.entries.len() - j,
        {
            if bytes_eq(&self.entries[j].oid, oid) {
                return Some(j);
            }
            j = j + 1;
        }
        None
    }

    /// The pack offset stored in the record at position `j`.
    pub fn pack_offset_at_index(&self, j: usize) -> (off: u64)
        requires
            j < self.entries@.len(),
        ensures
            off == self.entries@[j as int].pack_offset,
    {
        self.entries[j].pack_offset
    }
}

} // verus!
