//! Which bytes files share.

use ember::extents::{occupancy, Extent, Scan, ScanAction, ENXIO, ERANGE};

fn ext(start: u64, len: u64) -> Extent {
    Extent { start, len }
}

/// Pristine clones map the same bytes, so none of them holds
/// anything alone and the set costs one copy.
#[test]
fn pristine_clones_hold_nothing_exclusively() {
    let shared = vec![ext(0, 1000)];
    let got = occupancy(&[shared.clone(), shared.clone(), shared]);
    assert_eq!(got.exclusive, vec![0, 0, 0]);
    assert_eq!(got.union, 1000);
}

/// A clone that rewrote part of itself holds exactly what it
/// rewrote, and the origin keeps the part still shared.
#[test]
fn a_diverged_clone_holds_exactly_what_it_rewrote() {
    let origin = vec![ext(0, 1000)];
    // First 400 bytes rewritten elsewhere, the rest still shared.
    let clone = vec![ext(5000, 400), ext(400, 600)];
    let got = occupancy(&[origin, clone]);
    assert_eq!(got.exclusive, vec![400, 400]);
    assert_eq!(got.union, 1400);
}

/// Sharing is not pairwise. A byte held by three files is exclusive
/// to none of them.
#[test]
fn a_byte_shared_three_ways_is_exclusive_to_none() {
    let got = occupancy(&[
        vec![ext(0, 100)],
        vec![ext(0, 100)],
        vec![ext(0, 100), ext(100, 50)],
    ]);
    assert_eq!(got.exclusive, vec![0, 0, 50]);
    assert_eq!(got.union, 150);
}

/// The union counts a shared byte once, which is the whole reason
/// the pool figure cannot be a sum of the per-volume numbers.
#[test]
fn union_counts_a_shared_byte_once() {
    let got = occupancy(&[vec![ext(0, 800)], vec![ext(0, 800)], vec![ext(0, 800)]]);
    let sum_of_referenced: u64 = 800 * 3;
    assert_eq!(got.union, 800);
    assert!(got.union < sum_of_referenced);
}

/// Extents that touch but do not overlap stay exclusive, and the
/// sweep must not merge them into a shared region at the seam.
#[test]
fn adjacent_extents_do_not_count_as_shared() {
    let got = occupancy(&[vec![ext(0, 100)], vec![ext(100, 100)]]);
    assert_eq!(got.exclusive, vec![100, 100]);
    assert_eq!(got.union, 200);
}

/// A file may map the same physical run twice. The union counts it
/// once and it stays exclusive to that file.
#[test]
fn a_file_mapping_a_run_twice_still_holds_it_alone() {
    let got = occupancy(&[vec![ext(0, 100), ext(0, 100)]]);
    assert_eq!(got.exclusive, vec![100]);
    assert_eq!(got.union, 100);
}

#[test]
fn empty_input_and_empty_files_are_zero() {
    assert_eq!(occupancy(&[]).union, 0);
    let got = occupancy(&[vec![], vec![ext(0, 0)]]);
    assert_eq!(got.exclusive, vec![0, 0]);
    assert_eq!(got.union, 0);
}

/// Partial overlaps split into three regions: mine, ours, theirs.
#[test]
fn partial_overlap_splits_into_three_regions() {
    let got = occupancy(&[vec![ext(0, 100)], vec![ext(60, 100)]]);
    assert_eq!(got.exclusive, vec![60, 60]);
    assert_eq!(got.union, 160);
}

/// A file of 100 bytes, of which 10..40 are written, in two pieces.
#[test]
fn a_scan_goes_from_piece_to_piece() {
    let (mut scan, action) = Scan::new(100);
    assert!(matches!(action, ScanAction::SeekData { from: 0 }));
    let action = scan.after_seek(Ok(10));
    assert!(matches!(action, ScanAction::Locate { at: 10, len: 90 }));
    let action = scan.after_locate(10, Ok((5000, 20)));
    assert!(matches!(action, ScanAction::SeekData { from: 30 }), "{action:?}");
    let action = scan.after_seek(Ok(30));
    assert!(matches!(action, ScanAction::Locate { at: 30, len: 70 }), "{action:?}");
    let action = scan.after_locate(30, Ok((9000, 10)));
    assert!(matches!(action, ScanAction::SeekData { from: 40 }), "{action:?}");
    assert!(matches!(scan.after_locate(40, Err(ERANGE)), ScanAction::Done));
    assert!(matches!(scan.after_locate(40, Ok((0, 0))), ScanAction::Done));
    assert!(matches!(scan.after_seek(Err(ENXIO)), ScanAction::Done));
    assert!(matches!(scan.after_seek(Err(5)), ScanAction::Fail { code: 5 }));
    assert_eq!(scan.extents.len(), 2);
}
