use pack_verify::ChecksumError;
use pack_verify::Error;
use pack_verify::MultiIndex;
use pack_verify::MultiIndexEntry;
use pack_verify::PackError;
use pack_verify::PackIndex;
use pack_verify::PackIndexEntry;
use pack_verify::PackReport;
use pack_verify::PackTraverseOutcome;
use pack_verify::PackVerdict;
use pack_verify::oid_less;
use pack_verify::validate_fan;

fn oid(b: u8) -> Vec<u8> {
    vec![b; 20]
}

fn entry(b: u8, pack_id: u32, pack_offset: u64) -> MultiIndexEntry {
    MultiIndexEntry { oid: oid(b), pack_id, pack_offset }
}

fn flat_fan(n: u64) -> Vec<u64> {
    vec![n; 256]
}

/// Stamps the fixture with the checksum that its bytes actually hash to.
fn seal(mut ix: MultiIndex) -> MultiIndex {
    match ix.verify_checksum() {
        Ok(_) => ix,
        Err(ChecksumError::Mismatch { actual, .. }) => {
            ix.checksum = actual;
            ix
        }
    }
}

fn outcome(tag: u32) -> PackTraverseOutcome {
    PackTraverseOutcome { num_commits: tag, num_trees: 2, num_blobs: 3, num_tags: 0 }
}

fn pack_for(records: &[(u8, u64)]) -> PackIndex {
    let mut entries = Vec::new();
    for &(b, off) in records {
        entries.push(PackIndexEntry { oid: oid(b), pack_offset: off });
    }
    PackIndex { entries }
}

fn ok_report(pi: PackIndex, tag: u32) -> PackReport {
    PackReport::Opened { index: pi, verdict: PackVerdict::Completed { outcome: outcome(tag) } }
}

/// Seven sorted entries alternating between two packs, with matching packs.
fn base_fixture() -> (MultiIndex, Vec<PackReport>) {
    let entries = vec![
        entry(0x10, 0, 100),
        entry(0x20, 1, 200),
        entry(0x30, 0, 300),
        entry(0x40, 1, 400),
        entry(0x50, 0, 500),
        entry(0x60, 1, 600),
        entry(0x70, 0, 700),
    ];
    let ix = seal(MultiIndex {
        fan: flat_fan(7),
        entries,
        index_names: vec!["pack-a.idx".to_string(), "pack-b.idx".to_string()],
        checksum: vec![0u8; 20],
        data: vec![1, 2, 3, 4, 5],
    });
    let pack_a = pack_for(&[(0x10, 100), (0x30, 300), (0x50, 500), (0x70, 700)]);
    let pack_b = pack_for(&[(0x20, 200), (0x40, 400), (0x60, 600)]);
    let reports = vec![ok_report(pack_a, 1), ok_report(pack_b, 2)];
    (ix, reports)
}

#[test]
fn valid_multi_index_verifies_with_recomputed_checksum() {
    let (ix, reports) = base_fixture();
    let r = ix.verify_integrity(&reports);
    let out = r.expect("a sound fixture must verify");
    assert_eq!(out.actual_index_checksum, ix.checksum);
    assert_eq!(out.pack_traverse_outcomes, vec![outcome(1), outcome(2)]);
}

#[test]
fn verify_integrity_is_idempotent() {
    let (ix, reports) = base_fixture();
    let r1 = ix.verify_integrity(&reports);
    let r2 = ix.verify_integrity(&reports);
    assert_eq!(r1, r2);
}

#[test]
fn empty_multi_index_is_rejected() {
    let ix = seal(MultiIndex {
        fan: flat_fan(0),
        entries: Vec::new(),
        index_names: Vec::new(),
        checksum: vec![0u8; 20],
        data: vec![9, 9, 9],
    });
    let r = ix.verify_integrity(&Vec::new());
    assert!(matches!(r, Err(Error::Empty)));
}

#[test]
fn flipped_checksum_bit_fails_before_any_other_check() {
    let (mut ix, reports) = base_fixture();
    // A wrong offset that would otherwise surface as an offset mismatch.
    ix.entries[5].pack_offset = 9999;
    ix.checksum[0] ^= 1;
    let r = ix.verify_integrity(&reports);
    assert!(matches!(r, Err(Error::MultiIndexChecksum { .. })));
    assert!(!matches!(r, Err(Error::PackOffsetMismatch { .. })));
}

#[test]
fn altered_pack_offset_names_entry_and_both_offsets() {
    let (mut ix, reports) = base_fixture();
    ix.entries[5].pack_offset = 601;
    match ix.verify_integrity(&reports) {
        Err(Error::PackOffsetMismatch { id, expected_pack_offset, actual_pack_offset }) => {
            assert_eq!(id, oid(0x60));
            assert_eq!(expected_pack_offset, 601);
            assert_eq!(actual_pack_offset, 600);
        }
        other => panic!("expected an offset mismatch, got {:?}", other),
    }
}

#[test]
fn unopenable_pack_is_named() {
    let (ix, mut reports) = base_fixture();
    reports[1] = PackReport::OpenFailed { cause: "no such file".to_string() };
    match ix.verify_integrity(&reports) {
        Err(Error::BundleInit { name, cause }) => {
            assert_eq!(name, "pack-b.idx");
            assert_eq!(cause, "no such file");
        }
        other => panic!("expected an open failure, got {:?}", other),
    }
}

#[test]
fn cancellation_stops_the_run_before_later_packs() {
    let (ix, mut reports) = base_fixture();
    reports[0] = PackReport::Interrupted;
    // The later pack would fail to open, but cancellation must win.
    reports[1] = PackReport::OpenFailed { cause: "unreachable".to_string() };
    let r = ix.verify_integrity(&reports);
    assert!(matches!(r, Err(Error::Interrupted)));
}

#[test]
fn fan_violation_names_first_bad_bucket() {
    let (mut ix, reports) = base_fixture();
    ix.fan[10] = 3;
    match ix.verify_integrity(&reports) {
        Err(Error::Fan { index }) => assert_eq!(index, 10),
        other => panic!("expected a fan error, got {:?}", other),
    }
}

#[test]
fn out_of_order_entry_names_exact_index() {
    let (mut ix, reports) = base_fixture();
    ix.entries[2].oid = oid(0x05);
    match ix.verify_integrity(&reports) {
        Err(Error::OutOfOrder { index }) => assert_eq!(index, 1),
        other => panic!("expected an order error, got {:?}", other),
    }
}

#[test]
fn object_missing_from_own_pack_is_reported() {
    let (ix, mut reports) = base_fixture();
    reports[0] = ok_report(pack_for(&[(0x10, 100), (0x50, 500), (0x70, 700)]), 1);
    match ix.verify_integrity(&reports) {
        Err(Error::OidNotFound { id }) => assert_eq!(id, oid(0x30)),
        other => panic!("expected a missing object, got {:?}", other),
    }
}

#[test]
fn entry_naming_unlisted_pack_breaks_total_count() {
    let (mut ix, reports) = base_fixture();
    ix.entries[6].pack_id = 9;
    match ix.verify_integrity(&reports) {
        Err(Error::UnexpectedObjectCount { actual, expected }) => {
            assert_eq!(actual, 6);
            assert_eq!(expected, 7);
        }
        other => panic!("expected a count mismatch, got {:?}", other),
    }
}

#[test]
fn delegated_error_kind_is_preserved() {
    let (ix, mut reports) = base_fixture();
    let pack_b = pack_for(&[(0x20, 200), (0x40, 400), (0x60, 600)]);
    reports[1] = PackReport::Opened {
        index: pack_b,
        verdict: PackVerdict::Failed {
            error: PackError::Crc32Mismatch { expected: 1, actual: 2, offset: 3 },
        },
    };
    match ix.verify_integrity(&reports) {
        Err(Error::IndexIntegrity { inner }) => {
            assert_eq!(inner, PackError::Crc32Mismatch { expected: 1, actual: 2, offset: 3 });
        }
        other => panic!("expected a delegated failure, got {:?}", other),
    }
}

#[test]
fn delegated_cancellation_passes_through_unwrapped() {
    let (ix, mut reports) = base_fixture();
    let pack_b = pack_for(&[(0x20, 200), (0x40, 400), (0x60, 600)]);
    reports[1] = PackReport::Opened {
        index: pack_b,
        verdict: PackVerdict::Failed { error: PackError::Interrupted },
    };
    let r = ix.verify_integrity(&reports);
    assert!(matches!(r, Err(Error::Interrupted)));
}

#[test]
fn pack_without_entries_is_still_opened_and_delegated() {
    let entries = vec![entry(0x10, 0, 100), entry(0x20, 0, 200)];
    let ix = seal(MultiIndex {
        fan: flat_fan(2),
        entries,
        index_names: vec!["pack-a.idx".to_string(), "pack-b.idx".to_string()],
        checksum: vec![0u8; 20],
        data: vec![7, 7],
    });
    let pack_a = pack_for(&[(0x10, 100), (0x20, 200)]);
    let reports = vec![ok_report(pack_a, 1), ok_report(pack_for(&[]), 2)];
    let out = ix.verify_integrity(&reports).expect("empty packs still verify");
    assert_eq!(out.pack_traverse_outcomes.len(), 2);
    assert_eq!(out.pack_traverse_outcomes[1], outcome(2));
}

#[test]
fn single_entry_still_has_its_offset_verified() {
    let ix = seal(MultiIndex {
        fan: flat_fan(1),
        entries: vec![entry(0x10, 0, 123)],
        index_names: vec!["pack-a.idx".to_string()],
        checksum: vec![0u8; 20],
        data: vec![5],
    });
    let reports = vec![ok_report(pack_for(&[(0x10, 999)]), 1)];
    match ix.verify_integrity(&reports) {
        Err(Error::PackOffsetMismatch { expected_pack_offset, actual_pack_offset, .. }) => {
            assert_eq!(expected_pack_offset, 123);
            assert_eq!(actual_pack_offset, 999);
        }
        other => panic!("expected an offset mismatch, got {:?}", other),
    }
}

#[test]
fn verify_checksum_rejects_checksum_equal_to_data() {
    // The digest of twenty zero bytes is not those bytes themselves, so a
    // checksum primitive that handed its input back would wrongly pass here.
    let ix = MultiIndex {
        fan: flat_fan(0),
        entries: Vec::new(),
        index_names: Vec::new(),
        checksum: vec![0u8; 20],
        data: vec![0u8; 20],
    };
    assert!(matches!(ix.verify_checksum(), Err(ChecksumError::Mismatch { .. })));
}

#[test]
fn verify_checksum_accepts_matching_trailer_and_returns_it() {
    let ix = seal(MultiIndex {
        fan: flat_fan(0),
        entries: Vec::new(),
        index_names: Vec::new(),
        checksum: vec![0u8; 20],
        data: vec![1, 2, 3],
    });
    let h = ix.verify_checksum().expect("a sealed fixture validates");
    assert_eq!(h, ix.checksum);
    assert_eq!(h.len(), 20);
}

#[test]
fn validate_fan_accepts_monotone_table() {
    let fan = vec![0, 1, 1, 2, 5, 5, 9];
    assert_eq!(validate_fan(&fan), None);
}

#[test]
fn validate_fan_names_first_drop() {
    let fan = vec![0, 1, 1, 0, 5, 4];
    assert_eq!(validate_fan(&fan), Some(3));
}

#[test]
fn stepwise_driving_matches_the_whole_run() {
    let (ix, reports) = base_fixture();
    let whole = ix.verify_integrity(&reports);
    let mut v = ix.begin_verification().expect("early stages pass");
    let mut stepped = None;
    let mut at = 0;
    while !v.is_done() {
        if let Err(e) = v.step(&ix, &reports[at]) {
            stepped = Some(Err(e));
            break;
        }
        at += 1;
    }
    let stepped = stepped.unwrap_or_else(|| v.finish(&ix));
    assert_eq!(stepped, whole);
}

#[test]
fn begin_verification_reports_early_findings() {
    let (mut ix, _) = base_fixture();
    ix.entries.clear();
    let r = ix.begin_verification();
    assert!(matches!(r, Err(Error::Empty)));
}

#[test]
fn oid_order_is_bytewise_with_prefix_rule() {
    assert!(oid_less(&vec![1, 2, 3], &vec![1, 2, 4]));
    assert!(!oid_less(&vec![1, 2, 4], &vec![1, 2, 3]));
    assert!(oid_less(&vec![1, 2], &vec![1, 2, 0]));
    assert!(!oid_less(&vec![1, 2, 0], &vec![1, 2]));
    assert!(!oid_less(&vec![1, 2], &vec![1, 2]));
}

#[test]
fn trailer_checksum_is_the_well_known_digest() {
    let ix = seal(MultiIndex {
        fan: flat_fan(0),
        entries: Vec::new(),
        index_names: Vec::new(),
        checksum: vec![0u8; 20],
        data: vec![1, 2, 3, 4, 5],
    });
    let digest_of_12345 = vec![
        17u8, 150, 106, 185, 192, 153, 248, 250, 190, 250, 197, 76, 8, 213, 190, 43, 216, 201,
        3, 175,
    ];
    assert_eq!(ix.checksum, digest_of_12345);
}
