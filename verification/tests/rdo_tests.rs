use rdo::partition::TxSize;
use rdo::tables::RATE_EST_BIN_SIZE;
use rdo::tracker::RDOTracker;

#[test]
fn estimate_rate_test() {
    let t = RDOTracker::new();
    assert_eq!(t.estimate_rate(TxSize::TX_4X4, 0), 573);
    assert_eq!(t.estimate_rate(TxSize::TX_4X4, RATE_EST_BIN_SIZE * 1), 715);
    assert_eq!(t.estimate_rate(TxSize::TX_4X4, RATE_EST_BIN_SIZE * 2), 691);
    assert_eq!(t.estimate_rate(TxSize::TX_4X4, RATE_EST_BIN_SIZE / 2), 643);
}
