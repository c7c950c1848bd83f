use rdo::partition::TxSize;
use rdo::tables::{RATE_EST_BIN_SIZE, RDO_BIN_SIZE};
use rdo::tracker::{estimate_rate_is_defined, RDOTracker};

fn zero_table() -> Vec<Vec<u64>> {
    vec![vec![0u64; 50]; 19]
}

#[test]
fn new_tracker_is_empty() {
    let t = RDOTracker::new();
    assert_eq!(t.distortion_average_table(), zero_table());
    assert_eq!(t.rate_average_table(), zero_table());
    assert!(t.distortion_bin_averages().is_empty());
    assert!(t.rate_bin_averages().is_empty());
}

#[test]
fn add_rate_bins_by_centred_bins() {
    let mut t = RDOTracker::new();
    // (1500 - 500) / 1000 = 1
    t.add_rate(TxSize::TX_4X4, 1500, 30);
    t.add_rate(TxSize::TX_4X4, 2499, 50);
    // (2500 - 500) / 1000 = 2
    t.add_rate(TxSize::TX_4X4, 2500, 7);
    assert_eq!(t.rate_bin_averages(), vec![(1, 40), (2, 7)]);
}

#[test]
fn add_rate_small_distortion_lands_in_last_bin() {
    let mut t = RDOTracker::new();
    t.add_rate(TxSize::TX_4X4, 1, 12);
    t.add_rate(TxSize::TX_4X4, RATE_EST_BIN_SIZE / 2 - 1, 20);
    assert_eq!(t.rate_bin_averages(), vec![(49, 16)]);
}

#[test]
fn add_rate_large_distortion_lands_in_last_bin() {
    let mut t = RDOTracker::new();
    t.add_rate(TxSize::TX_4X4, 1_000_000_000, 9);
    t.add_rate(TxSize::TX_4X4, u64::MAX, 11);
    assert_eq!(t.rate_bin_averages(), vec![(49, 10)]);
}

#[test]
fn add_rate_zero_distortion_records_nothing() {
    let mut t = RDOTracker::new();
    t.add_rate(TxSize::TX_4X4, 0, 100);
    t.add_distortion(TxSize::TX_32X32, 0, 100);
    assert_eq!(t.rate_average_table(), zero_table());
    assert_eq!(t.distortion_average_table(), zero_table());
}

#[test]
fn add_distortion_bins() {
    let mut t = RDOTracker::new();
    t.add_distortion(TxSize::TX_32X32, 450, 100);
    t.add_distortion(TxSize::TX_32X32, 599, 300);
    t.add_distortion(TxSize::TX_32X32, 1, 8);
    t.add_distortion(TxSize::TX_32X32, RDO_BIN_SIZE * 60, 5);
    // other transform sizes are not in the 32x32 report
    t.add_distortion(TxSize::TX_8X8, 450, 1000);
    assert_eq!(t.distortion_bin_averages(), vec![(0, 8), (2, 200), (49, 5)]);
    let table = t.distortion_average_table();
    assert_eq!(table[1][2], 1000);
    assert_eq!(table[3][2], 200);
    assert_eq!(table[3][49], 5);
}

#[test]
fn rate_table_of_averages() {
    let mut t = RDOTracker::new();
    t.add_rate(TxSize::TX_16X16, 3600, 10);
    t.add_rate(TxSize::TX_16X16, 3700, 21);
    let table = t.rate_average_table();
    // 3 / 2 rounds down: (10 + 21) / 2 = 15
    assert_eq!(table[2][3], 15);
    assert_eq!(table[2][4], 0);
    assert_eq!(table[0][3], 0);
}

#[test]
fn merge_in_adds_statistics() {
    let mut a = RDOTracker::new();
    let mut b = RDOTracker::new();
    a.add_distortion(TxSize::TX_32X32, 450, 100);
    b.add_distortion(TxSize::TX_32X32, 450, 300);
    b.add_distortion(TxSize::TX_32X32, 9000, 50);
    a.add_rate(TxSize::TX_4X4, 1500, 4);
    b.add_rate(TxSize::TX_4X4, 1500, 8);
    a.merge_in(&b);
    assert_eq!(a.distortion_bin_averages(), vec![(2, 200), (45, 50)]);
    assert_eq!(a.rate_bin_averages(), vec![(1, 6)]);
    // the merged-in tracker is unchanged
    assert_eq!(b.distortion_bin_averages(), vec![(2, 300), (45, 50)]);
}

#[test]
fn merge_empty_is_identity() {
    let mut a = RDOTracker::new();
    a.add_distortion(TxSize::TX_16X16, 800, 77);
    a.add_rate(TxSize::TX_4X4, 4000, 5);
    let before_d = a.distortion_average_table();
    let before_r = a.rate_average_table();
    a.merge_in(&RDOTracker::new());
    assert_eq!(a.distortion_average_table(), before_d);
    assert_eq!(a.rate_average_table(), before_r);
}

#[test]
fn merge_is_commutative() {
    let mut a = RDOTracker::new();
    let mut b = RDOTracker::new();
    a.add_distortion(TxSize::TX_8X8, 800, 10);
    a.add_distortion(TxSize::TX_8X8, 900, 30);
    b.add_distortion(TxSize::TX_8X8, 800, 50);
    b.add_rate(TxSize::TX_32X32, 7000, 12);
    let mut ab = RDOTracker::new();
    ab.merge_in(&a);
    ab.merge_in(&b);
    let mut ba = RDOTracker::new();
    ba.merge_in(&b);
    ba.merge_in(&a);
    assert_eq!(ab.distortion_average_table(), ba.distortion_average_table());
    assert_eq!(ab.rate_average_table(), ba.rate_average_table());
    assert_eq!(ab.distortion_average_table()[1][4], 30);
}

#[test]
fn sample_then_merge_equals_merge_then_sample() {
    let mut a = RDOTracker::new();
    let mut b = RDOTracker::new();
    b.add_rate(TxSize::TX_4X4, 2600, 3);
    let mut first = RDOTracker::new();
    first.merge_in(&a);
    first.add_rate(TxSize::TX_4X4, 2600, 9);
    first.merge_in(&b);
    a.merge_in(&b);
    a.add_rate(TxSize::TX_4X4, 2600, 9);
    assert_eq!(first.rate_average_table(), a.rate_average_table());
    assert_eq!(a.rate_bin_averages(), vec![(2, 6)]);
}

#[test]
fn estimate_distortion_reads_the_bin() {
    let t = RDOTracker::new();
    assert_eq!(t.estimate_distortion(TxSize::TX_4X4, 0), 0);
    assert_eq!(t.estimate_distortion(TxSize::TX_4X4, 1), 91);
    assert_eq!(t.estimate_distortion(TxSize::TX_4X4, 450), 251);
    assert_eq!(t.estimate_distortion(TxSize::TX_8X8, 1_000_000_000), 685);
    assert_eq!(t.estimate_distortion(TxSize::TX_32X32, 199), 0);
    assert_eq!(t.estimate_distortion(TxSize::TX_32X32, 400), 592);
    assert_eq!(t.estimate_distortion(TxSize::TX_64X64, 400), 0);
}

#[test]
fn estimate_rate_at_bin_starts() {
    let t = RDOTracker::new();
    assert_eq!(t.estimate_rate(TxSize::TX_4X4, 3 * RATE_EST_BIN_SIZE), 1246);
    assert_eq!(t.estimate_rate(TxSize::TX_32X32, 48 * RATE_EST_BIN_SIZE), 20405);
    assert_eq!(t.estimate_rate(TxSize::TX_16X16, 0), 0);
}

#[test]
fn estimate_rate_rounds_down() {
    let t = RDOTracker::new();
    // slope (20090 - 20405) * 256 / 1000 = -80 (toward zero);
    // 1000 * -80 / 256 = -312.5, rounded down to -313
    assert_eq!(t.estimate_rate(TxSize::TX_32X32, 49 * RATE_EST_BIN_SIZE), 20092);
}

#[test]
fn estimate_rate_wraps_below_zero() {
    let t = RDOTracker::new();
    // 20405 + (952000 * -80) / 256 = 20405 - 297500 = -277095
    assert_eq!(t.estimate_rate(TxSize::TX_32X32, 1_000_000), u64::MAX - 277094);
}

#[test]
fn estimate_rate_untrained_size_is_zero() {
    let t = RDOTracker::new();
    assert_eq!(t.estimate_rate(TxSize::TX_64X64, 12345), 0);
    assert_eq!(t.estimate_rate(TxSize::TX_16X4, u64::MAX), 0);
}

#[test]
fn sample_checks() {
    let t = RDOTracker::new();
    assert!(t.can_add_rate(TxSize::TX_4X4, 0, u64::MAX));
    assert!(t.can_add_rate(TxSize::TX_4X4, 1500, u64::MAX));
    // the signed arithmetic of the bin overflows just above 2^63
    assert!(!t.can_add_rate(TxSize::TX_4X4, 0x8000_0000_0000_0000, 1));
    assert!(t.can_add_rate(TxSize::TX_4X4, 0x8000_0000_0000_01F4, 1));
    let mut u = RDOTracker::new();
    u.add_distortion(TxSize::TX_8X8, 300, u64::MAX - 5);
    assert!(u.can_add_distortion(TxSize::TX_8X8, 300, 5));
    assert!(!u.can_add_distortion(TxSize::TX_8X8, 300, 6));
    assert!(u.can_add_distortion(TxSize::TX_8X8, 500, 6));
    assert!(u.can_merge(&t));
    assert!(!u.can_merge(&u));
}

#[test]
fn estimate_rate_domain() {
    assert!(estimate_rate_is_defined(TxSize::TX_4X4, 500));
    assert!(estimate_rate_is_defined(TxSize::TX_64X64, u64::MAX));
    // slope 46 over a huge offset overflows i64
    assert!(!estimate_rate_is_defined(TxSize::TX_4X4, 1u64 << 62));
    // just above 2^63 the offset itself leaves i64
    assert!(!estimate_rate_is_defined(TxSize::TX_64X64, 0x8000_0000_0000_0000));
}

#[test]
fn tables_round_trip() {
    let mut t = RDOTracker::new();
    t.add_rate(TxSize::TX_8X8, 2600, 40);
    t.add_distortion(TxSize::TX_16X16, 600, 70);
    let (rb, rc, db, dc) = t.tables();
    assert_eq!(rb.len(), 19);
    assert_eq!(rb[1][2], 40);
    assert_eq!(rc[1][2], 1);
    assert_eq!(db[2][3], 70);
    assert_eq!(dc[2][3], 1);
    let u = RDOTracker::from_tables(rb, rc, db, dc).unwrap();
    assert_eq!(u.rate_average_table(), t.rate_average_table());
    assert_eq!(u.distortion_average_table(), t.distortion_average_table());
}

#[test]
fn from_tables_rejects_bad_shapes() {
    let good = vec![vec![0u64; 50]; 19];
    let short_row = {
        let mut t = good.clone();
        t[7].pop();
        t
    };
    assert!(RDOTracker::from_tables(good.clone(), good.clone(), good.clone(), good.clone()).is_some());
    assert!(RDOTracker::from_tables(vec![vec![0u64; 50]; 18], good.clone(), good.clone(), good.clone()).is_none());
    assert!(RDOTracker::from_tables(good.clone(), good.clone(), short_row, good.clone()).is_none());
}

#[test]
fn merge_equals_one_tracker_fed_both_streams() {
    let mut a = RDOTracker::new();
    let mut b = RDOTracker::new();
    let mut c = RDOTracker::new();
    let mut d = RDOTracker::new();
    // stream 1 into a, stream 2 into b; c gets 1 then 2, d gets 2 then 1
    a.add_rate(TxSize::TX_4X4, 1700, 11);
    a.add_distortion(TxSize::TX_32X32, 300, 5);
    b.add_rate(TxSize::TX_4X4, 1800, 13);
    b.add_distortion(TxSize::TX_8X8, 9999, 7);
    b.add_rate(TxSize::TX_16X16, 0, 99);
    c.add_rate(TxSize::TX_4X4, 1700, 11);
    c.add_distortion(TxSize::TX_32X32, 300, 5);
    c.add_rate(TxSize::TX_4X4, 1800, 13);
    c.add_distortion(TxSize::TX_8X8, 9999, 7);
    c.add_rate(TxSize::TX_16X16, 0, 99);
    d.add_rate(TxSize::TX_4X4, 1800, 13);
    d.add_distortion(TxSize::TX_8X8, 9999, 7);
    d.add_rate(TxSize::TX_16X16, 0, 99);
    d.add_rate(TxSize::TX_4X4, 1700, 11);
    d.add_distortion(TxSize::TX_32X32, 300, 5);
    a.merge_in(&b);
    assert_eq!(a.tables(), c.tables());
    assert_eq!(a.tables(), d.tables());
}
