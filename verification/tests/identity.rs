//! Frame identities and the decimation counter.

use picasound::util::misc::FrameCounter;
use picasound::util::{FrameId, FrameIds};

#[test]
fn minted_identities_are_fresh_and_nonzero() {
    let mut ids = FrameIds::new();
    let a = ids.mint();
    let b = ids.mint();
    assert_ne!(a, b);
    assert_ne!(a, FrameId::default());
    assert_ne!(b, FrameId::default());
}

#[test]
fn update_reports_changes_only() {
    let mut ids = FrameIds::new();
    let a = ids.mint();
    let b = ids.mint();
    let mut last = FrameId::default();
    assert!(last.update(a));
    assert!(!last.update(a));
    assert!(last.update(b));
    assert_eq!(last, b);
}

#[test]
fn counter_wraps_at_its_period() {
    let mut c = FrameCounter::new(3);
    let reads: Vec<usize> = (0..7).map(|_| c.fetch_inc()).collect();
    assert_eq!(reads, vec![0, 1, 2, 0, 1, 2, 0]);
}
