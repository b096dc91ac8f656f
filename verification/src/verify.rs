//! The integrity orchestrator: trailer checksum, structural checks, and the
//! cross-reference of every entry against the pack that claims to hold it.
//!
//! Opening a pack bundle and running its own deep verification are I/O that
//! stays outside this crate. The orchestrator therefore advances one listed
//! pack at a time: the caller opens the pack named next and hands back a
//! [`PackReport`] saying what the outside world found, and [`Verification::step`]
//! decides everything that follows from it.

use vstd::prelude::*;
use crate::bytes::bytes_eq;
use crate::bytes::oid_lt;
use crate::bytes::clone_bytes;
use crate::multi_index::MultiIndex;
use crate::multi_index::MultiIndexEntry;
use crate::multi_index::fan_check;
use crate::multi_index::order_check;
use crate::multi_index::validate_fan;
use crate::pack_index::PackIndex;
use crate::pack_index::pack_lookup;

verus! {

/// The whole-file hash that the checksum primitive computes over the bytes a
/// multi-pack index stores ahead of its trailer.
pub uninterp spec fn sha1_of(data: Seq<u8>) -> Seq<u8>;

/// Relies on git_features::hash: `hasher(Sha1)` begun, fed all of `data`, and
/// finalized yields the 20-byte SHA-1 digest, a function of `data` alone.
#[verifier::external_body]
fn sha1_digest(data: &Vec<u8>) -> (r: Vec<u8>)
    ensures
        r@ == sha1_of(data@),
        r@.len() == 20,
{
    let mut h = git_features::hash::hasher(git_hash::Kind::Sha1);
    h.update(data.as_slice());
    h.digest().to_vec()
}

/// Why the trailer checksum failed to validate.
#[derive(Debug, PartialEq, Eq)]
pub enum ChecksumError {
    Mismatch { actual: Vec<u8>, expected: Vec<u8> },
}

/// What the delegated single-pack verifier reported for one pack: its error
/// space is distinct from this module's and is remapped, not collapsed.
#[derive(Debug, PartialEq, Eq)]
pub enum PackError {
    Processor,
    VerifyChecksum,
    Tree,
    TreeTraversal,
    PackDecode { id: Vec<u8>, offset: u64 },
    PackMismatch { expected: Vec<u8>, actual: Vec<u8> },
    PackObjectMismatch { expected: Vec<u8>, actual: Vec<u8>, offset: u64 },
    Crc32Mismatch { expected: u32, actual: u32, offset: u64 },
    Interrupted,
}

/// The mathematical shape of a [`PackError`].
pub enum PackErrorV {
    Processor,
    VerifyChecksum,
    Tree,
    TreeTraversal,
    PackDecode { id: Seq<u8>, offset: u64 },
    PackMismatch { expected: Seq<u8>, actual: Seq<u8> },
    PackObjectMismatch { expected: Seq<u8>, actual: Seq<u8>, offset: u64 },
    Crc32Mismatch { expected: u32, actual: u32, offset: u64 },
    Interrupted,
}

impl View for PackError {
    type V = PackErrorV;

    open spec fn view(&self) -> PackErrorV {
        match self {
            PackError::Processor => PackErrorV::Processor,
            PackError::VerifyChecksum => PackErrorV::VerifyChecksum,
            PackError::Tree => PackErrorV::Tree,
            PackError::TreeTraversal => PackErrorV::TreeTraversal,
            PackError::PackDecode { id, offset } => PackErrorV::PackDecode {
                id: id@,
                offset: *offset,
            },
            PackError::PackMismatch { expected, actual } => PackErrorV::PackMismatch {
                expected: expected@,
                actual: actual@,
            },
            PackError::PackObjectMismatch { expected, actual, offset } => (
                PackErrorV::PackObjectMismatch {
                    expected: expected@,
                    actual: actual@,
                    offset: *offset,
                }
            ),
            PackError::Crc32Mismatch { expected, actual, offset } => PackErrorV::Crc32Mismatch {
                expected: *expected,
                actual: *actual,
                offset: *offset,
            },
            PackError::Interrupted => PackErrorV::Interrupted,
        }
    }
}

/// The first fatal finding of a whole verification run.
#[derive(Debug, PartialEq, Eq)]
pub enum Error {
    MultiIndexChecksum { source: ChecksumError },
    Fan { index: usize },
    Empty,
    OutOfOrder { index: usize },
    BundleInit { name: String, cause: String },
    OidNotFound { id: Vec<u8> },
    PackOffsetMismatch { id: Vec<u8>, expected_pack_offset: u64, actual_pack_offset: u64 },
    IndexIntegrity { inner: PackError },
    UnexpectedObjectCount { actual: usize, expected: usize },
    Interrupted,
}

/// The mathematical shape of an [`Error`].
pub enum ErrorV {
    MultiIndexChecksum { actual: Seq<u8>, expected: Seq<u8> },
    Fan { index: int },
    Empty,
    OutOfOrder { index: int },
    BundleInit { name: Seq<char>, cause: Seq<char> },
    OidNotFound { id: Seq<u8> },
    PackOffsetMismatch { id: Seq<u8>, expected_pack_offset: u64, actual_pack_offset: u64 },
    IndexIntegrity { inner: PackErrorV },
    UnexpectedObjectCount { actual: int, expected: int },
    Interrupted,
}

impl View for Error {
    type V = ErrorV;

    open spec fn view(&self) -> ErrorV {
        match self {
            Error::MultiIndexChecksum { source } => match source {
                ChecksumError::Mismatch { actual, expected } => ErrorV::MultiIndexChecksum {
                    actual: actual@,
                    expected: expected@,
                },
            },
            Error::Fan { index } => ErrorV::Fan { index: *index as int },
            Error::Empty => ErrorV::Empty,
            Error::OutOfOrder { index } => ErrorV::OutOfOrder { index: *index as int },
            Error::BundleInit { name, cause } => ErrorV::BundleInit {
                name: name@,
                cause: cause@,
            },
            Error::OidNotFound { id } => ErrorV::OidNotFound { id: id@ },
            Error::PackOffsetMismatch { id, expected_pack_offset, actual_pack_offset } => (
                ErrorV::PackOffsetMismatch {
                    id: id@,
                    expected_pack_offset: *expected_pack_offset,
                    actual_pack_offset: *actual_pack_offset,
                }
            ),
            Error::IndexIntegrity { inner } => ErrorV::IndexIntegrity { inner: inner@ },
            Error::UnexpectedObjectCount { actual, expected } => ErrorV::UnexpectedObjectCount {
                actual: *actual as int,
                expected: *expected as int,
            },
            Error::Interrupted => ErrorV::Interrupted,
        }
    }
}

/// The summary a pack's own verification hands back on success.
#[derive(Debug, PartialEq, Eq, Structural, Clone, Copy)]
pub struct PackTraverseOutcome {
    pub num_commits: u32,
    pub num_trees: u32,
    pub num_blobs: u32,
    pub num_tags: u32,
}

/// How the delegated verification of one opened pack ended.
#[derive(Debug)]
pub enum PackVerdict {
    Completed { outcome: PackTraverseOutcome },
    Failed { error: PackError },
}

/// What the outside world found when one listed pack came up: the pack opened
/// and these are its index and delegated verdict; the pack could not be
/// opened; or the cancellation flag was observed set.
#[derive(Debug)]
pub enum PackReport {
    Opened { index: PackIndex, verdict: PackVerdict },
    OpenFailed { cause: String },
    Interrupted,
}

/// The aggregate result of a successful run: the recomputed checksum that
/// matched the stored one, and one traversal outcome per listed pack, in
/// `index_names` order.
#[derive(Debug, PartialEq, Eq)]
pub struct Outcome {
    pub actual_index_checksum: Vec<u8>,
    pub pack_traverse_outcomes: Vec<PackTraverseOutcome>,
}

/// The mathematical shape of an [`Outcome`].
pub struct OutcomeV {
    pub actual_index_checksum: Seq<u8>,
    pub pack_traverse_outcomes: Seq<PackTraverseOutcome>,
}

impl View for Outcome {
    type V = OutcomeV;

    open spec fn view(&self) -> OutcomeV {
        OutcomeV {
            actual_index_checksum: self.actual_index_checksum@,
            pack_traverse_outcomes: self.pack_traverse_outcomes@,
        }
    }
}

/// How a collaborator's error enters this module's taxonomy: cancellation
/// passes through unwrapped; every other kind is kept verbatim inside
/// `IndexIntegrity`.
pub open spec fn remap_spec(e: PackErrorV) -> ErrorV {
    match e {
        PackErrorV::Interrupted => ErrorV::Interrupted,
        _ => ErrorV::IndexIntegrity { inner: e },
    }
}

/// Remaps the delegated single-pack verifier's error into this module's error
/// namespace, preserving the inner kind and letting cancellation through
/// unwrapped.
pub fn remap_pack_error(e: &PackError) -> (r: Error)
    ensures
        r@ == remap_spec(e@),
{
    match e {
        PackError::Processor => Error::IndexIntegrity { inner: PackError::Processor },
        PackError::VerifyChecksum => Error::IndexIntegrity { inner: PackError::VerifyChecksum },
        PackError::Tree => Error::IndexIntegrity { inner: PackError::Tree },
        PackError::TreeTraversal => Error::IndexIntegrity { inner: PackError::TreeTraversal },
        PackError::PackDecode { id, offset } => Error::IndexIntegrity {
            inner: PackError::PackDecode { id: clone_bytes(id), offset: *offset },
        },
        PackError::PackMismatch { expected, actual } => Error::IndexIntegrity {
            inner: PackError::PackMismatch {
                expected: clone_bytes(expected),
                actual: clone_bytes(actual),
            },
        },
        PackError::PackObjectMismatch { expected, actual, offset } => Error::IndexIntegrity {
            inner: PackError::PackObjectMismatch {
                expected: clone_bytes(expected),
                actual: clone_bytes(actual),
                offset: *offset,
            },
        },
        PackError::Crc32Mismatch { expected, actual, offset } => Error::IndexIntegrity {
            inner: PackError::Crc32Mismatch {
                expected: *expected,
                actual: *actual,
                offset: *offset,
            },
        },
        PackError::Interrupted => Error::Interrupted,
    }
}

/// The entry positions attributed to pack `k`, in entry-table order.
pub open spec fn group_of(es: Seq<MultiIndexEntry>, k: int) -> Seq<usize>
    decreases es.len(),
{
    if es.len() == 0 {
        Seq::empty()
    } else {
        let pre = group_of(es.drop_last(), k);
        if es.last().pack_id as int == k {
            pre.push((es.len() - 1) as usize)
        } else {
            pre
        }
    }
}

/// The number of entries attributed to the packs `0 .. m` taken together.
pub open spec fn total_grouped(es: Seq<MultiIndexEntry>, m: int) -> int
    decreases m,
{
    if m <= 0 {
        0
    } else {
        total_grouped(es, m - 1) + group_of(es, m - 1).len()
    }
}

/// What checking entry `i` against the pack index `pi` that claims it finds:
/// nothing, a missing membership, or an offset disagreement.
pub open spec fn entry_error(es: Seq<MultiIndexEntry>, pi: PackIndex, i: int) -> Option<ErrorV> {
    let e = es[i];
    match pack_lookup(pi.entries@, e.oid@, 0) {
        None => Some(ErrorV::OidNotFound { id: e.oid@ }),
        Some(j) => if pi.entries@[j].pack_offset != e.pack_offset {
            Some(ErrorV::PackOffsetMismatch {
                id: e.oid@,
                expected_pack_offset: e.pack_offset,
                actual_pack_offset: pi.entries@[j].pack_offset,
            })
        } else {
            None
        },
    }
}

/// The first finding when the entries at positions `g` are checked against
/// `pi`, left to right.
pub open spec fn group_check(es: Seq<MultiIndexEntry>, pi: PackIndex, g: Seq<usize>) -> Option<
    ErrorV,
>
    decreases g.len(),
{
    if g.len() == 0 {
        None
    } else {
        match entry_error(es, pi, g[0] as int) {
            Some(e) => Some(e),
            None => group_check(es, pi, g.drop_first()),
        }
    }
}

/// What handling pack `k` under `report` yields: its traversal outcome, or
/// the first error among cancellation, open failure, entry checks, and the
/// remapped delegated verdict, in that order.
pub open spec fn pack_result(ix: MultiIndex, report: PackReport, k: int) -> Result<
    PackTraverseOutcome,
    ErrorV,
> {
    match report {
        PackReport::Interrupted => Err(ErrorV::Interrupted),
        PackReport::OpenFailed { cause } => Err(ErrorV::BundleInit {
            name: ix.index_names@[k]@,
            cause: cause@,
        }),
        PackReport::Opened { index, verdict } => match group_check(
            ix.entries@,
            index,
            group_of(ix.entries@, k),
        ) {
            Some(e) => Err(e),
            None => match verdict {
                PackVerdict::Failed { error } => Err(remap_spec(error@)),
                PackVerdict::Completed { outcome } => Ok(outcome),
            },
        },
    }
}

/// The outcomes of the packs `k ..`, or the first error among them.
pub open spec fn packs_check(ix: MultiIndex, reports: Seq<PackReport>, k: int) -> Result<
    Seq<PackTraverseOutcome>,
    ErrorV,
>
    decreases ix.index_names@.len() - k,
{
    if k < 0 || k >= ix.index_names@.len() {
        Ok(Seq::empty())
    } else {
        match pack_result(ix, reports[k], k) {
            Err(e) => Err(e),
            Ok(o) => match packs_check(ix, reports, k + 1) {
                Err(e) => Err(e),
                Ok(rest) => Ok(seq![o] + rest),
            },
        }
    }
}

/// Prepends already-collected outcomes to the result of the remaining packs.
pub open spec fn compose_packs(
    prefix: Seq<PackTraverseOutcome>,
    rest: Result<Seq<PackTraverseOutcome>, ErrorV>,
) -> Result<Seq<PackTraverseOutcome>, ErrorV> {
    match rest {
        Ok(r) => Ok(prefix + r),
        Err(e) => Err(e),
    }
}

/// The first finding of the stages that precede any pack being opened:
/// trailer checksum, fan-out monotonicity, emptiness, object-id order.
pub open spec fn early_result(ix: MultiIndex) -> Option<ErrorV> {
    if sha1_of(ix.data@) != ix.checksum@ {
        Some(ErrorV::MultiIndexChecksum { actual: sha1_of(ix.data@), expected: ix.checksum@ })
    } else {
        match fan_check(ix.fan@, 1) {
            Some(k) => Some(ErrorV::Fan { index: k }),
            None => if ix.entries@.len() == 0 {
                Some(ErrorV::Empty)
            } else {
                match order_check(ix.entries@, 0) {
                    Some(i) => Some(ErrorV::OutOfOrder { index: i }),
                    None => None,
                }
            },
        }
    }
}

/// The one result a whole verification run can have on the given index and
/// per-pack reports: the first fatal finding, or the assembled outcome.
pub open spec fn verify_result(ix: MultiIndex, reports: Seq<PackReport>) -> Result<
    OutcomeV,
    ErrorV,
> {
    match early_result(ix) {
        Some(e) => Err(e),
        None => match packs_check(ix, reports, 0) {
            Err(e) => Err(e),
            Ok(outs) => if total_grouped(ix.entries@, ix.index_names@.len() as int)
                != ix.entries@.len() {
                Err(ErrorV::UnexpectedObjectCount {
                    actual: total_grouped(ix.entries@, ix.index_names@.len() as int),
                    expected: ix.entries@.len() as int,
                })
            } else {
                Ok(OutcomeV {
                    actual_index_checksum: sha1_of(ix.data@),
                    pack_traverse_outcomes: outs,
                })
            },
        },
    }
}

/// Whether the executable result `r` is the one that `verify_result` states.
pub open spec fn verdict_matches(
    ix: MultiIndex,
    reports: Seq<PackReport>,
    r: Result<Outcome, Error>,
) -> bool {
    match verify_result(ix, reports) {
        Ok(ov) => r matches Ok(o) && o@ == ov,
        Err(ev) => r matches Err(e) && e@ == ev,
    }
}

/// The resumable state of one verification run, between packs: everything the
/// early stages established, plus how far the per-pack stage has come.
pub struct Verification {
    pub checksum: Vec<u8>,
    pub groups: Vec<Vec<usize>>,
    pub next_pack: usize,
    pub total_checked: usize,
    pub outcomes: Vec<PackTraverseOutcome>,
}

impl Verification {
    /// What every constructor establishes and every step preserves.
    pub open spec fn inv(self, ix: MultiIndex) -> bool {
        &&& self.checksum@ == sha1_of(ix.data@)
        &&& self.checksum@ == ix.checksum@
        &&& self.groups@.len() == ix.index_names@.len()
        &&& forall|k: int|
            0 <= k < self.groups@.len() ==> self.groups@[k]@ == group_of(ix.entries@, k)
        &&& self.next_pack <= self.groups@.len()
        &&& self.total_checked as int == total_grouped(ix.entries@, self.next_pack as int)
        &&& self.outcomes@.len() == self.next_pack
    }

    /// True once every listed pack has been handled.
    pub fn is_done(&self) -> (b: bool)
        ensures
            b == (self.next_pack == self.groups@.len()),
    {
        self.next_pack == self.groups.len()
    }
}

proof fn lemma_group_of_push(es: Seq<MultiIndexEntry>, e: MultiIndexEntry, k: int)
    ensures
        group_of(es.push(e), k) == if e.pack_id as int == k {
            group_of(es, k).push(es.len() as usize)
        } else {
            group_of(es, k)
        },
{
    assert(es.push(e).drop_last() =~= es);
    assert(es.push(e).last() == e);
}

proof fn lemma_group_of_bounds(es: Seq<MultiIndexEntry>, k: int)
    requires
        es.len() <= usize::MAX,
    ensures
        forall|j: int|
            0 <= j < group_of(es, k).len() ==> (#[trigger] group_of(es, k)[j]) < es.len(),
    decreases es.len(),
{
    if es.len() > 0 {
        lemma_group_of_bounds(es.drop_last(), k);
        let pre = group_of(es.drop_last(), k);
        assert(es.drop_last().len() == es.len() - 1);
        assert forall|j: int|
            0 <= j < group_of(es, k).len() implies (#[trigger] group_of(es, k)[j])
            < es.len() by {
            if es.last().pack_id as int == k {
                assert(group_of(es, k) == pre.push((es.len() - 1) as usize));
                if j < pre.len() {
                    assert(group_of(es, k)[j] == pre[j]);
                } else {
                    assert(group_of(es, k)[j] == (es.len() - 1) as usize);
                }
            } else {
                assert(group_of(es, k) == pre);
            }
        }
    }
}

proof fn lemma_total_grouped_empty(es: Seq<MultiIndexEntry>, m: int)
    requires
        es.len() == 0,
    ensures
        total_grouped(es, m) == 0,
    decreases m,
{
    if m > 0 {
        lemma_total_grouped_empty(es, m - 1);
    }
}

proof fn lemma_total_grouped_push(es: Seq<MultiIndexEntry>, e: MultiIndexEntry, m: int)
    ensures
        total_grouped(es.push(e), m) == total_grouped(es, m) + if (e.pack_id as int) < m {
            1int
        } else {
            0int
        },
    decreases m,
{
    if m > 0 {
        lemma_total_grouped_push(es, e, m - 1);
        lemma_group_of_push(es, e, m - 1);
    }
}

proof fn lemma_total_grouped_le(es: Seq<MultiIndexEntry>, m: int)
    ensures
        0 <= total_grouped(es, m) <= es.len(),
    decreases es.len(),
{
    if es.len() == 0 {
        lemma_total_grouped_empty(es, m);
    } else {
        lemma_total_grouped_le(es.drop_last(), m);
        lemma_total_grouped_push(es.drop_last(), es.last(), m);
        assert(es.drop_last().push(es.last()) =~= es);
    }
}

proof fn lemma_total_grouped_all_in_range(es: Seq<MultiIndexEntry>, m: int)
    requires
        forall|i: int| 0 <= i < es.len() ==> ((#[trigger] es[i].pack_id) as int) < m,
    ensures
        total_grouped(es, m) == es.len(),
    decreases es.len(),
{
    if es.len() == 0 {
        lemma_total_grouped_empty(es, m);
    } else {
        lemma_total_grouped_all_in_range(es.drop_last(), m);
        lemma_total_grouped_push(es.drop_last(), es.last(), m);
        assert(es.drop_last().push(es.last()) =~= es);
        assert(es.last() == es[es.len() - 1]);
    }
}

impl MultiIndex {
    /// Validates that the stored trailer checksum matches the hash recomputed
    /// over the file's preceding bytes, and returns the recomputed hash if so.
    pub fn verify_checksum(&self) -> (r: Result<Vec<u8>, ChecksumError>)
        ensures
            sha1_of(self.data@) == self.checksum@ ==> (r matches Ok(h) && h@ == self.checksum@),
            sha1_of(self.data@) != self.checksum@ ==> (r matches Err(e) && e matches ChecksumError::Mismatch {
                actual,
                expected,
            } && actual@ == sha1_of(self.data@) && expected@ == self.checksum@),
    {
        let actual = sha1_digest(&self.data);
        if bytes_eq(&actual, &self.checksum) {
            Ok(actual)
        } else {
            Err(ChecksumError::Mismatch { actual, expected: clone_bytes(&self.checksum) })
        }
    }

    /// Partitions the entry table by owning pack in one pass: the table is
    /// walked once and every position lands in its pack's bucket, so no pack
    /// is ever re-scanned. Entries naming a pack beyond the listed ones land
    /// nowhere and surface later as a total-count mismatch.
    fn group_entries(&self) -> (groups: Vec<Vec<usize>>)
        ensures
            groups@.len() == self.index_names@.len(),
            forall|k: int|
                0 <= k < groups@.len() ==> (#[trigger] groups@[k])@ == group_of(self.entries@, k),
    {
        let m = self.index_names.len();
        let mut groups: Vec<Vec<usize>> = Vec::new();
        let mut k: usize = 0;
        while k < m
            invariant
                k <= m,
                groups@.len() == k,
                forall|j: int| 0 <= j < k ==> (#[trigger] groups@[j])@ == Seq::<usize>::empty(),
            decreases m - k,
        {
            groups.push(Vec::new());
            k = k + 1;
        }
        let n = self.entries.len();
        let mut i: usize = 0;
        proof {
            assert(self.entries@.take(0) =~= Seq::<MultiIndexEntry>::empty());
            assert forall|kk: int| 0 <= kk < groups@.len() implies (#[trigger] groups@[kk])@
                == group_of(self.entries@.take(0), kk) by {
            }
        }
        while i < n
            invariant
                i <= n,
                groups@.len() == m,
                forall|kk: int|
                    0 <= kk < groups@.len() ==> (#[trigger] groups@[kk])@ == group_of(
                        self.entries@.take(i as int),
                        kk,
                    ),
            decreases n - i,
        {
            let pid = self.entries[i].pack_id;
            proof {
                assert(self.entries@.take(i as int + 1) =~= self.entries@.take(i as int).push(
                    self.entries@[i as int],
                ));
                assert forall|kk: int| 0 <= kk < groups@.len() implies group_of(
                    self.entries@.take(i as int + 1),
                    kk,
                ) == (if self.entries@[i as int].pack_id as int == kk {
                    group_of(self.entries@.take(i as int), kk).push(i as usize)
                } else {
                    group_of(self.entries@.take(i as int), kk)
                }) by {
                    lemma_group_of_push(
                        self.entries@.take(i as int),
                        self.entries@[i as int],
                        kk,
                    );
                }
            }
            if (pid as usize) < groups.len() {
                let p = pid as usize;
                let ghost gs = groups@;
                let mut bucket = groups.remove(p);
                bucket.push(i);
                proof {
                    assert(bucket@ == gs[p as int]@.push(i as usize));
                }
                let ghost bv = bucket;
                groups.insert(p, bucket);
                proof {
                    assert(groups@ =~= gs.update(p as int, bv));
                }
            }
            i = i + 1;
        }
        proof {
            assert(self.entries@.take(n as int) =~= self.entries@);
        }
        groups
    }

    /// Runs every stage that needs no pack on disk - trailer checksum,
    /// fan-out monotonicity, emptiness, object-id order - and, if all pass,
    /// partitions the entries by owning pack, ready for the per-pack stage.
    pub fn begin_verification(&self) -> (r: Result<Verification, Error>)
        ensures
            match r {
                Ok(v) => early_result(*self) is None && v.inv(*self) && v.next_pack == 0,
                Err(e) => early_result(*self) == Some(e@),
            },
    {
        let actual = match self.verify_checksum() {
            Ok(h) => h,
            Err(e) => {
                return Err(Error::MultiIndexChecksum { source: e });
            },
        };
        if let Some(k) = validate_fan(&self.fan) {
            return Err(Error::Fan { index: k });
        }
        if self.entries.len() == 0 {
            return Err(Error::Empty);
        }
        if let Some(i) = self.check_object_order() {
            return Err(Error::OutOfOrder { index: i });
        }
        let groups = self.group_entries();
        Ok(
            Verification {
                checksum: actual,
                groups,
                next_pack: 0,
                total_checked: 0,
                outcomes: Vec::new(),
            },
        )
    }
}

impl Verification {
    /// Handles the next listed pack under the given report: cancellation and
    /// open failure abort; otherwise every entry attributed to this pack is
    /// looked up in the pack's own index and its offset compared, and the
    /// delegated verdict is taken over, its error remapped.
    pub fn step(&mut self, ix: &MultiIndex, report: &PackReport) -> (r: Result<(), Error>)
        requires
            old(self).inv(*ix),
            old(self).next_pack < ix.index_names@.len(),
        ensures
            r matches Ok(()) ==> {
                &&& final(self).inv(*ix)
                &&& final(self).next_pack == old(self).next_pack + 1
                &&& (pack_result(*ix, *report, old(self).next_pack as int) matches Ok(o)
                    && final(self).outcomes@ == old(self).outcomes@.push(o))
            },
            r matches Err(e) ==> (pack_result(*ix, *report, old(self).next_pack as int)
                matches Err(ev) && e@ == ev),
    {
        let k = self.next_pack;
        // Binds the listed-pack count so that `k + 1` is known to fit.
        let m = ix.index_names.len();
        proof {
            assert(k < m);
        }
        match report {
            PackReport::Interrupted => Err(Error::Interrupted),
            PackReport::OpenFailed { cause } => Err(
                Error::BundleInit { name: ix.index_names[k].clone(), cause: cause.clone() },
            ),
            PackReport::Opened { index: pi, verdict } => {
                let ghost g = group_of(ix.entries@, k as int);
                // Binds the entry count so that positions in the group are
                // known to address the entry table.
                let n = ix.entries.len();
                proof {
                    lemma_group_of_bounds(ix.entries@, k as int);
                    assert(g.skip(0) =~= g);
                }
                let glen = self.groups[k].len();
                let mut j: usize = 0;
                while j < glen
                    invariant
                        j <= glen,
                        glen == g.len(),
                        group_check(ix.entries@, *pi, g) == group_check(
                            ix.entries@,
                            *pi,
                            g.skip(j as int),
                        ),
                    decreases glen - j,
                {
                    let ei = self.groups[k][j];
                    proof {
                        assert(g[j as int] == self.groups@[k as int]@[j as int]);
                        assert(g.skip(j as int)[0] == g[j as int]);
                    }
                    let e = &ix.entries[ei];
                    match pi.lookup(&e.oid) {
                        None => {
                            proof {
                                assert(entry_error(ix.entries@, *pi, g[j as int] as int)
                                    == Some(ErrorV::OidNotFound { id: e.oid@ }));
                            }
                            return Err(Error::OidNotFound { id: clone_bytes(&e.oid) });
                        },
                        Some(jj) => {
                            let actual_offset = pi.pack_offset_at_index(jj);
                            if actual_offset != e.pack_offset {
                                return Err(
                                    Error::PackOffsetMismatch {
                                        id: clone_bytes(&e.oid),
                                        expected_pack_offset: e.pack_offset,
                                        actual_pack_offset: actual_offset,
                                    },
                                );
                            }
                        },
                    }
                    proof {
                        assert(g.skip(j as int).drop_first() =~= g.skip(j as int + 1));
                    }
                    j = j + 1;
                }
                proof {
                    assert(g.skip(glen as int) =~= Seq::<usize>::empty());
                    assert(group_check(ix.entries@, *pi, g) is None);
                    assert(total_grouped(ix.entries@, k as int + 1) == total_grouped(
                        ix.entries@,
                        k as int,
                    ) + g.len());
                    lemma_total_grouped_le(ix.entries@, k as int + 1);
                }
                self.total_checked = self.total_checked + glen;
                match verdict {
                    PackVerdict::Failed { error } => Err(remap_pack_error(error)),
                    PackVerdict::Completed { outcome } => {
                        self.outcomes.push(*outcome);
                        self.next_pack = k + 1;
                        Ok(())
                    },
                }
            },
        }
    }

    /// Closes the run once every pack has been handled: the number of entries
    /// actually checked must equal the number the file declares, or the
    /// cross-reference itself is unsound and says so.
    pub fn finish(self, ix: &MultiIndex) -> (r: Result<Outcome, Error>)
        requires
            self.inv(*ix),
            self.next_pack == self.groups@.len(),
        ensures
            total_grouped(ix.entries@, ix.index_names@.len() as int) != ix.entries@.len()
                ==> (r matches Err(e) && e@ == (ErrorV::UnexpectedObjectCount {
                actual: total_grouped(ix.entries@, ix.index_names@.len() as int),
                expected: ix.entries@.len() as int,
            })),
            total_grouped(ix.entries@, ix.index_names@.len() as int) == ix.entries@.len()
                ==> (r matches Ok(o) && o@.actual_index_checksum == sha1_of(ix.data@)
                && o@.pack_traverse_outcomes == self.outcomes@),
    {
        if self.total_checked != ix.entries.len() {
            Err(
                Error::UnexpectedObjectCount {
                    actual: self.total_checked,
                    expected: ix.entries.len(),
                },
            )
        } else {
            Ok(
                Outcome {
                    actual_index_checksum: self.checksum,
                    pack_traverse_outcomes: self.outcomes,
                },
            )
        }
    }
}

impl MultiIndex {
    /// Verifies the whole multi-pack index against the per-pack reports, one
    /// report per listed pack in `index_names` order: the trailer checksum
    /// and structural checks run first, then each pack's entries are
    /// cross-referenced and its delegated verdict folded in, and the first
    /// fatal finding aborts the run.
    pub fn verify_integrity(&self, reports: &Vec<PackReport>) -> (r: Result<Outcome, Error>)
        requires
            reports@.len() == self.index_names@.len(),
        ensures
            verdict_matches(*self, reports@, r),
    {
        let mut v = match self.begin_verification() {
            Ok(v) => v,
            Err(e) => {
                return Err(e);
            },
        };
        while v.next_pack < v.groups.len()
            invariant
                v.inv(*self),
                packs_check(*self, reports@, 0) == compose_packs(
                    v.outcomes@,
                    packs_check(*self, reports@, v.next_pack as int),
                ),
            decreases v.groups@.len() - v.next_pack,
        {
            let k = v.next_pack;
            let ghost prev_outcomes = v.outcomes@;
            match v.step(self, &reports[k]) {
                Err(e) => {
                    proof {
                        assert(packs_check(*self, reports@, k as int) == Err::<
                            Seq<PackTraverseOutcome>,
                            ErrorV,
                        >(e@));
                    }
                    return Err(e);
                },
                Ok(()) => {
                    proof {
                        let pr = pack_result(*self, reports@[k as int], k as int);
                        let o = pr->Ok_0;
                        match packs_check(*self, reports@, k as int + 1) {
                            Ok(rest) => {
                                assert(packs_check(*self, reports@, k as int) == Ok::<
                                    Seq<PackTraverseOutcome>,
                                    ErrorV,
                                >(seq![o] + rest));
                                assert((prev_outcomes + (seq![o] + rest)) =~= (
                                prev_outcomes.push(o) + rest));
                            },
                            Err(_) => {},
                        }
                    }
                },
            }
        }
        proof {
            assert(packs_check(*self, reports@, v.next_pack as int) == Ok::<
                Seq<PackTraverseOutcome>,
                ErrorV,
            >(Seq::empty()));
            assert((v.outcomes@ + Seq::<PackTraverseOutcome>::empty()) =~= v.outcomes@);
        }
        v.finish(self)
    }
}

proof fn lemma_fan_check_none_sorted(fan: Seq<u64>, k: int)
    requires
        1 <= k,
        fan_check(fan, k) is None,
    ensures
        forall|j: int| k <= j < fan.len() ==> #[trigger] fan[j - 1] <= fan[j],
    decreases fan.len() - k,
{
    if k < fan.len() {
        lemma_fan_check_none_sorted(fan, k + 1);
    }
}

proof fn lemma_fan_check_some_props(fan: Seq<u64>, k: int, b: int)
    requires
        1 <= k,
        fan_check(fan, k) == Some(b),
    ensures
        k <= b < fan.len(),
        fan[b] < fan[b - 1],
        forall|j: int| k <= j < b ==> #[trigger] fan[j - 1] <= fan[j],
    decreases fan.len() - k,
{
    if !(k >= fan.len()) && !(fan[k] < fan[k - 1]) {
        lemma_fan_check_some_props(fan, k + 1, b);
    }
}

proof fn lemma_order_check_none_sorted(es: Seq<MultiIndexEntry>, i: int)
    requires
        0 <= i,
        order_check(es, i) is None,
    ensures
        forall|j: int| i <= j < es.len() - 1 ==> oid_lt(#[trigger] es[j].oid@, es[j + 1].oid@),
    decreases es.len() - i,
{
    if i + 1 < es.len() {
        lemma_order_check_none_sorted(es, i + 1);
    }
}

proof fn lemma_order_check_some_props(es: Seq<MultiIndexEntry>, i: int, b: int)
    requires
        0 <= i,
        order_check(es, i) == Some(b),
    ensures
        i <= b < es.len() - 1,
        !oid_lt(es[b].oid@, es[b + 1].oid@),
        forall|j: int| i <= j < b ==> oid_lt(#[trigger] es[j].oid@, es[j + 1].oid@),
    decreases es.len() - i,
{
    if !(i + 1 >= es.len()) && oid_lt(es[i].oid@, es[i + 1].oid@) {
        lemma_order_check_some_props(es, i + 1, b);
    }
}

proof fn lemma_packs_check_all_ok(ix: MultiIndex, reports: Seq<PackReport>, k: int)
    requires
        forall|t: int|
            k <= t < ix.index_names@.len() ==> pack_result(ix, #[trigger] reports[t], t) is Ok,
    ensures
        packs_check(ix, reports, k) is Ok,
    decreases ix.index_names@.len() - k,
{
    if 0 <= k < ix.index_names@.len() {
        lemma_packs_check_all_ok(ix, reports, k + 1);
    }
}

proof fn lemma_group_check_none(es: Seq<MultiIndexEntry>, pi: PackIndex, g: Seq<usize>)
    requires
        forall|j: int| 0 <= j < g.len() ==> entry_error(es, pi, (#[trigger] g[j]) as int) is None,
    ensures
        group_check(es, pi, g) is None,
    decreases g.len(),
{
    if g.len() > 0 {
        assert(entry_error(es, pi, g[0] as int) is None);
        assert forall|j: int|
            0 <= j < g.drop_first().len() implies entry_error(
            es,
            pi,
            (#[trigger] g.drop_first()[j]) as int,
        ) is None by {
            assert(g.drop_first()[j] == g[j + 1]);
        }
        lemma_group_check_none(es, pi, g.drop_first());
    }
}

/// Law: a pack whose report shows it opened, whose own index confirms every
/// entry attributed to it at the recorded offset, and whose delegated
/// verification completed, contributes its outcome rather than an error.
pub proof fn lemma_pack_result_ok(ix: MultiIndex, report: PackReport, k: int)
    requires
        report matches PackReport::Opened { index, verdict } && (verdict
            matches PackVerdict::Completed { .. }) && forall|j: int|
            0 <= j < group_of(ix.entries@, k).len() ==> entry_error(
                ix.entries@,
                index,
                (#[trigger] group_of(ix.entries@, k)[j]) as int,
            ) is None,
    ensures
        pack_result(ix, report, k) is Ok,
{
    match report {
        PackReport::Opened { index, verdict } => {
            lemma_group_check_none(ix.entries@, index, group_of(ix.entries@, k));
        },
        _ => {},
    }
}

/// Law: a trailer checksum mismatch is reported ahead of every other check,
/// whatever else is wrong with the index or its packs.
pub proof fn lemma_checksum_mismatch_first(ix: MultiIndex, reports: Seq<PackReport>)
    requires
        sha1_of(ix.data@) != ix.checksum@,
    ensures
        verify_result(ix, reports) == Err::<OutcomeV, ErrorV>(
            ErrorV::MultiIndexChecksum { actual: sha1_of(ix.data@), expected: ix.checksum@ },
        ),
{
}

/// Law: a multi-pack index whose stored checksum matches the recomputed hash,
/// whose fan-out table is monotone, which declares at least one object in
/// strictly ascending id order, whose every entry names a listed pack, and
/// whose every listed pack opens, confirms its entries and passes its own
/// verification, is verified successfully, and the outcome carries the
/// recomputed hash of the file's bytes.
pub proof fn lemma_verify_ok_on_valid(ix: MultiIndex, reports: Seq<PackReport>)
    requires
        sha1_of(ix.data@) == ix.checksum@,
        fan_check(ix.fan@, 1) is None,
        ix.entries@.len() > 0,
        order_check(ix.entries@, 0) is None,
        forall|i: int|
            0 <= i < ix.entries@.len() ==> ((#[trigger] ix.entries@[i].pack_id) as int)
                < ix.index_names@.len(),
        forall|t: int|
            0 <= t < ix.index_names@.len() ==> pack_result(ix, #[trigger] reports[t], t) is Ok,
    ensures
        verify_result(ix, reports) matches Ok(o) && o.actual_index_checksum == sha1_of(ix.data@),
{
    lemma_packs_check_all_ok(ix, reports, 0);
    lemma_total_grouped_all_in_range(ix.entries@, ix.index_names@.len() as int);
}

/// Law: whenever a fan-out bucket undercuts its predecessor in an index whose
/// checksum validates, verification reports the first such bucket as a fan
/// error, whatever the packs would have said.
pub proof fn lemma_fan_violation_reported(ix: MultiIndex, reports: Seq<PackReport>)
    requires
        sha1_of(ix.data@) == ix.checksum@,
        exists|k: int| 1 <= k < ix.fan@.len() && #[trigger] ix.fan@[k] < ix.fan@[k - 1],
    ensures
        verify_result(ix, reports) matches Err(e) && e matches ErrorV::Fan { index } && 1 <= index
            < ix.fan@.len() && ix.fan@[index] < ix.fan@[index - 1],
{
    match fan_check(ix.fan@, 1) {
        Some(b) => {
            lemma_fan_check_some_props(ix.fan@, 1, b);
        },
        None => {
            lemma_fan_check_none_sorted(ix.fan@, 1);
            let k = choose|k: int| 1 <= k < ix.fan@.len() && #[trigger] ix.fan@[k] < ix.fan@[k - 1];
            assert(ix.fan@[k - 1] <= ix.fan@[k]);
        },
    }
}

/// Law: when the object-id table first breaks its strictly ascending order at
/// position `i` - in an index that passes the checksum and fan stages and is
/// not empty - verification reports exactly that position as out of order.
pub proof fn lemma_out_of_order_reported(ix: MultiIndex, reports: Seq<PackReport>, i: int)
    requires
        sha1_of(ix.data@) == ix.checksum@,
        fan_check(ix.fan@, 1) is None,
        ix.entries@.len() > 0,
        order_check(ix.entries@, 0) == Some(i),
    ensures
        verify_result(ix, reports) == Err::<OutcomeV, ErrorV>(ErrorV::OutOfOrder { index: i }),
        !oid_lt(ix.entries@[i].oid@, ix.entries@[i + 1].oid@),
        forall|j: int| 0 <= j < i ==> oid_lt(#[trigger] ix.entries@[j].oid@, ix.entries@[j + 1].oid@),
{
    lemma_order_check_some_props(ix.entries@, 0, i);
}

/// Law: whenever verification succeeds, every adjacent pair of the object-id
/// table is in strictly ascending byte order.
pub proof fn lemma_verify_ok_sorted(ix: MultiIndex, reports: Seq<PackReport>)
    requires
        verify_result(ix, reports) is Ok,
    ensures
        forall|j: int|
            0 <= j < ix.entries@.len() - 1 ==> oid_lt(#[trigger] ix.entries@[j].oid@, ix.entries@[j
                + 1].oid@),
{
    lemma_order_check_none_sorted(ix.entries@, 0);
}

/// Law: verification is deterministic, so two runs over the same index and
/// the same per-pack reports end alike - the same checksum and per-pack
/// summaries on success, the same error otherwise.
pub proof fn lemma_verify_idempotent(
    ix: MultiIndex,
    reports: Seq<PackReport>,
    r1: Result<Outcome, Error>,
    r2: Result<Outcome, Error>,
)
    requires
        verdict_matches(ix, reports, r1),
        verdict_matches(ix, reports, r2),
    ensures
        r1 is Ok <==> r2 is Ok,
        r1 is Ok ==> (r1->Ok_0)@ == (r2->Ok_0)@,
        r1 is Err ==> (r1->Err_0)@ == (r2->Err_0)@,
{
}

/// Law: whenever verification succeeds, the per-pack groups of the
/// cross-reference jointly account for exactly the number of objects the
/// file declares.
pub proof fn lemma_total_count(ix: MultiIndex, reports: Seq<PackReport>)
    requires
        verify_result(ix, reports) is Ok,
    ensures
        total_grouped(ix.entries@, ix.index_names@.len() as int) == ix.entries@.len(),
{
}

} // verus!
