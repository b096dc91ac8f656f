//! The data model of the aggregate index file and its structural checks.

use vstd::prelude::*;
use crate::bytes::oid_lt;
use crate::bytes::oid_less;

verus! {

/// One entry of the aggregate index: an object id together with the pack that
/// is claimed to hold the object and the offset at which it is claimed to sit.
/// `pack_id` is a position in the owning file's list of index names.
pub struct MultiIndexEntry {
    pub oid: Vec<u8>,
    pub pack_id: u32,
    pub pack_offset: u64,
}

/// The parsed, read-only content of a multi-pack index file: the fan-out
/// table, the entry table sorted by object id, the ordered list of per-pack
/// index file names, the stored trailer checksum, and the raw bytes the
/// trailer checksum covers.
pub struct MultiIndex {
    pub fan: Vec<u64>,
    pub entries: Vec<MultiIndexEntry>,
    pub index_names: Vec<String>,
    pub checksum: Vec<u8>,
    pub data: Vec<u8>,
}

/// The first position at or after `k` whose fan bucket undercuts its
/// predecessor, if any.
pub open spec fn fan_check(fan: Seq<u64>, k: int) -> Option<int>
    decreases fan.len() - k,
{
    if k < 1 || k >= fan.len() {
        None
    } else if fan[k] < fan[k - 1] {
        Some(k)
    } else {
        fan_check(fan, k + 1)
    }
}

/// The first position at or after `i` whose object id does not sort strictly
/// below its successor's, if any.
pub open spec fn order_check(es: Seq<MultiIndexEntry>, i: int) -> Option<int>
    decreases es.len() - i,
{
    if i < 0 || i + 1 >= es.len() {
        None
    } else if !oid_lt(es[i].oid@, es[i + 1].oid@) {
        Some(i)
    } else {
        order_check(es, i + 1)
    }
}

/// Scans the fan-out table in bucket order and returns the first bucket whose
/// cumulative count is smaller than its predecessor's. Lookups narrowed by a
/// non-monotonic fan table would silently cover wrong ranges, so this runs
/// before anything that depends on a lookup.
pub fn validate_fan(fan: &Vec<u64>) -> (r: Option<usize>)
    ensures
        match r {
            Some(k) => fan_check(fan@, 1) == Some(k as int),
            None => fan_check(fan@, 1) is None,
        },
{
    let mut k: usize = 1;
    while k < fan.len()
        invariant
            1 <= k,
            fan_check(fan@, 1) == fan_check(fan@, k as int),
        decreases fan.len() - k,
    {
        if fan[k] < fan[k - 1] {
            return Some(k);
        }
        k = k + 1;
    }
    None
}

impl MultiIndex {
    /// The number of object entries the file declares.
    pub fn num_objects(&self) -> (n: usize)
        ensures
            n == self.entries@.len(),
    {
        self.entries.len()
    }

    /// The number of per-pack indices the file lists.
    pub fn num_indices(&self) -> (n: usize)
        ensures
            n == self.index_names@.len(),
    {
        self.index_names.len()
    }

    /// Walks the entry table in file order and returns the first position
    /// whose object id fails to sort strictly below its successor's.
    pub fn check_object_order(&self) -> (r: Option<usize>)
        ensures
            match r {
                Some(i) => order_check(self.entries@, 0) == Some(i as int),
                None => order_check(self.entries@, 0) is None,
            },
    {
        if self.entries.len() == 0 {
            return None;
        }
        let mut i: usize = 0;
        while i + 1 < self.entries.len()
            invariant
                i + 1 <= self.entries.len(),
                order_check(self.entries@, 0) == order_check(self.entries@, i as int),
            decreases self.entries.len() - i,
        {
            if !oid_less(&self.entries[i].oid, &self.entries[i + 1].oid) {
                return Some(i);
            }
            i = i + 1;
        }
        None
    }
}

} // verus!
