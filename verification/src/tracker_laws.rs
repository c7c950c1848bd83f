use vstd::prelude::*;
use crate::partition::{TxSize, tx_size_index, TX_SIZES_ALL};
use crate::tables::{
    RDO_NUM_BINS, RATE_EST_BIN_SIZE, TRAINED_TX_SIZES, TRAINED_RATE, TRAINED_DISTORTION, rate_table,
    distortion_table,
};
use crate::tracker::{
    Sample, SampleKind, record, record_fits, record_all, record_all_fits, rate_bin, dist_bin,
    StatTable, TrackerModel, table_shape, table_sum, table_add, sum_fits, zero_table,
    estimate_rate_fits, estimated_rate, rate_offset, rate_lo_bin, rate_hi_bin, rate_slope,
    trunc_div,
};

verus! {

/// Sum of the cells of a row.
pub open spec fn row_total(s: Seq<u64>) -> int
    decreases s.len(),
{
    if s.len() == 0 {
        0
    } else {
        row_total(s.drop_last()) + s.last()
    }
}

/// Sum of all cells of a table.
pub open spec fn table_total(t: StatTable) -> int
    decreases t.len(),
{
    if t.len() == 0 {
        0
    } else {
        table_total(t.drop_last()) + row_total(t.last())
    }
}

proof fn lemma_row_total_add(s: Seq<u64>, c: int, x: u64)
    requires
        0 <= c < s.len(),
        s[c] + x <= u64::MAX,
    ensures
        row_total(s.update(c, (s[c] + x) as u64)) == row_total(s) + x,
    decreases s.len(),
{
    let u = s.update(c, (s[c] + x) as u64);
    if c == s.len() - 1 {
        assert(u.drop_last() =~= s.drop_last());
    } else {
        assert(u.drop_last() =~= s.drop_last().update(c, (s[c] + x) as u64));
        lemma_row_total_add(s.drop_last(), c, x);
    }
}

proof fn lemma_table_total_add(t: StatTable, r: int, c: int, x: u64)
    requires
        0 <= r < t.len(),
        0 <= c < t[r].len(),
        t[r][c] + x <= u64::MAX,
    ensures
        table_total(table_add(t, r, c, x)) == table_total(t) + x,
    decreases t.len(),
{
    let u = table_add(t, r, c, x);
    if r == t.len() - 1 {
        assert(u.drop_last() =~= t.drop_last());
        lemma_row_total_add(t[r], c, x);
    } else {
        assert(u.drop_last() =~= table_add(t.drop_last(), r, c, x));
        lemma_table_total_add(t.drop_last(), r, c, x);
    }
}

proof fn lemma_row_total_sum(a: Seq<u64>, b: Seq<u64>)
    requires
        a.len() == b.len(),
        forall|c: int| 0 <= c < a.len() ==> #[trigger] a[c] + #[trigger] b[c] <= u64::MAX,
    ensures
        row_total(Seq::new(a.len(), |c: int| (a[c] + b[c]) as u64)) == row_total(a) + row_total(b),
    decreases a.len(),
{
    let s = Seq::new(a.len(), |c: int| (a[c] + b[c]) as u64);
    if a.len() > 0 {
        let a2 = a.drop_last();
        let b2 = b.drop_last();
        assert(s.drop_last() =~= Seq::new(a2.len(), |c: int| (a2[c] + b2[c]) as u64));
        lemma_row_total_sum(a2, b2);
    }
}

proof fn lemma_table_total_sum(a: StatTable, b: StatTable)
    requires
        a.len() == b.len(),
        forall|r: int| 0 <= r < a.len() ==> #[trigger] a[r].len() == b[r].len(),
        forall|r: int, c: int|
            0 <= r < a.len() && 0 <= c < a[r].len() ==> #[trigger] a[r][c] + #[trigger] b[r][c]
                <= u64::MAX,
    ensures
        table_total(table_sum(a, b)) == table_total(a) + table_total(b),
    decreases a.len(),
{
    if a.len() > 0 {
        let a2 = a.drop_last();
        let b2 = b.drop_last();
        assert(table_sum(a, b).drop_last() =~= table_sum(a2, b2));
        lemma_table_total_sum(a2, b2);
        let r = a.len() - 1;
        assert forall|c: int| 0 <= c < a[r].len() implies #[trigger] a[r][c] + #[trigger] b[r][c]
            <= u64::MAX by {
            assert(a[r][c] + b[r][c] <= u64::MAX);
        }
        lemma_row_total_sum(a[r], b[r]);
    }
}

/// Merging a fresh tracker into a tracker changes nothing.
pub proof fn law_merge_empty_is_identity(m: TrackerModel)
    requires
        m.wf(),
    ensures
        m.mergeable(TrackerModel::empty()),
        m.merged(TrackerModel::empty()) == m,
{
    let z = zero_table();
    assert(table_sum(m.rate_bins, z) =~= m.rate_bins) by {
        assert forall|r: int| 0 <= r < TX_SIZES_ALL implies #[trigger] table_sum(m.rate_bins, z)[r]
            =~= m.rate_bins[r] by {}
    }
    assert(table_sum(m.rate_counts, z) =~= m.rate_counts) by {
        assert forall|r: int| 0 <= r < TX_SIZES_ALL implies #[trigger] table_sum(m.rate_counts, z)[r]
            =~= m.rate_counts[r] by {}
    }
    assert(table_sum(m.dist_bins, z) =~= m.dist_bins) by {
        assert forall|r: int| 0 <= r < TX_SIZES_ALL implies #[trigger] table_sum(m.dist_bins, z)[r]
            =~= m.dist_bins[r] by {}
    }
    assert(table_sum(m.dist_counts, z) =~= m.dist_counts) by {
        assert forall|r: int| 0 <= r < TX_SIZES_ALL implies #[trigger] table_sum(m.dist_counts, z)[r]
            =~= m.dist_counts[r] by {}
    }
}

proof fn lemma_table_sum_comm(a: StatTable, b: StatTable)
    requires
        table_shape(a),
        table_shape(b),
        sum_fits(a, b),
    ensures
        sum_fits(b, a),
        table_sum(a, b) == table_sum(b, a),
{
    assert forall|r: int| 0 <= r < TX_SIZES_ALL implies #[trigger] table_sum(a, b)[r]
        =~= table_sum(b, a)[r] by {}
    assert(table_sum(a, b) =~= table_sum(b, a));
}

proof fn lemma_table_sum_assoc(a: StatTable, b: StatTable, c: StatTable)
    requires
        table_shape(a),
        table_shape(b),
        table_shape(c),
        sum_fits(a, b),
        sum_fits(table_sum(a, b), c),
    ensures
        sum_fits(b, c),
        sum_fits(a, table_sum(b, c)),
        table_shape(table_sum(a, b)),
        table_sum(table_sum(a, b), c) == table_sum(a, table_sum(b, c)),
{
    let ab = table_sum(a, b);
    let bc = table_sum(b, c);
    assert forall|r: int, k: int| 0 <= r < TX_SIZES_ALL && 0 <= k < RDO_NUM_BINS implies #[trigger] b[r][k]
        + #[trigger] c[r][k] <= u64::MAX by {
        assert(ab[r][k] + c[r][k] <= u64::MAX);
    }
    assert forall|r: int, k: int| 0 <= r < TX_SIZES_ALL && 0 <= k < RDO_NUM_BINS implies #[trigger] a[r][k]
        + #[trigger] bc[r][k] <= u64::MAX by {
        assert(ab[r][k] + c[r][k] <= u64::MAX);
    }
    assert forall|r: int| 0 <= r < TX_SIZES_ALL implies #[trigger] table_sum(ab, c)[r]
        =~= table_sum(a, bc)[r] by {}
    assert(table_sum(ab, c) =~= table_sum(a, bc));
}

proof fn lemma_table_add_sum(a: StatTable, b: StatTable, r: int, k: int, x: u64)
    requires
        table_shape(a),
        table_shape(b),
        0 <= r < TX_SIZES_ALL,
        0 <= k < RDO_NUM_BINS,
        a[r][k] + x <= u64::MAX,
        sum_fits(table_add(a, r, k, x), b),
    ensures
        sum_fits(a, b),
        table_sum(a, b)[r][k] + x <= u64::MAX,
        table_add(table_sum(a, b), r, k, x) == table_sum(table_add(a, r, k, x), b),
{
    let a2 = table_add(a, r, k, x);
    assert forall|i: int, j: int| 0 <= i < TX_SIZES_ALL && 0 <= j < RDO_NUM_BINS implies #[trigger] a[i][j]
        + #[trigger] b[i][j] <= u64::MAX by {
        assert(a2[i][j] + b[i][j] <= u64::MAX);
    }
    assert(a2[r][k] + b[r][k] <= u64::MAX);
    assert forall|i: int| 0 <= i < TX_SIZES_ALL implies #[trigger] table_add(table_sum(a, b), r, k, x)[i]
        =~= table_sum(a2, b)[i] by {}
    assert(table_add(table_sum(a, b), r, k, x) =~= table_sum(a2, b));
}

/// Merging trackers does not depend on which one is merged into the other.
pub proof fn law_merge_commutative(a: TrackerModel, b: TrackerModel)
    requires
        a.wf(),
        b.wf(),
        a.mergeable(b),
    ensures
        b.mergeable(a),
        a.merged(b) == b.merged(a),
{
    lemma_table_sum_comm(a.rate_bins, b.rate_bins);
    lemma_table_sum_comm(a.rate_counts, b.rate_counts);
    lemma_table_sum_comm(a.dist_bins, b.dist_bins);
    lemma_table_sum_comm(a.dist_counts, b.dist_counts);
}

/// Merging three trackers gives the same statistics in either grouping.
pub proof fn law_merge_associative(a: TrackerModel, b: TrackerModel, c: TrackerModel)
    requires
        a.wf(),
        b.wf(),
        c.wf(),
        a.mergeable(b),
        a.merged(b).mergeable(c),
    ensures
        b.mergeable(c),
        a.mergeable(b.merged(c)),
        a.merged(b).merged(c) == a.merged(b.merged(c)),
{
    lemma_table_sum_assoc(a.rate_bins, b.rate_bins, c.rate_bins);
    lemma_table_sum_assoc(a.rate_counts, b.rate_counts, c.rate_counts);
    lemma_table_sum_assoc(a.dist_bins, b.dist_bins, c.dist_bins);
    lemma_table_sum_assoc(a.dist_counts, b.dist_counts, c.dist_counts);
}

/// Recording a rate sample in a tracker and then merging another tracker into
/// it gives the same statistics as merging first and recording after.
pub proof fn law_rate_sample_commutes_with_merge(
    a: TrackerModel,
    b: TrackerModel,
    r: int,
    k: int,
    rate: u64,
)
    requires
        a.wf(),
        b.wf(),
        0 <= r < TX_SIZES_ALL,
        0 <= k < RDO_NUM_BINS,
        a.rate_counts[r][k] < u64::MAX,
        a.rate_bins[r][k] + rate <= u64::MAX,
        a.with_rate_sample(r, k, rate).mergeable(b),
    ensures
        a.mergeable(b),
        a.merged(b).with_rate_sample(r, k, rate) == a.with_rate_sample(r, k, rate).merged(b),
{
    lemma_table_add_sum(a.rate_bins, b.rate_bins, r, k, rate);
    lemma_table_add_sum(a.rate_counts, b.rate_counts, r, k, 1);
}

/// Recording a distortion sample in a tracker and then merging another tracker
/// into it gives the same statistics as merging first and recording after.
pub proof fn law_distortion_sample_commutes_with_merge(
    a: TrackerModel,
    b: TrackerModel,
    r: int,
    k: int,
    distortion: u64,
)
    requires
        a.wf(),
        b.wf(),
        0 <= r < TX_SIZES_ALL,
        0 <= k < RDO_NUM_BINS,
        a.dist_counts[r][k] < u64::MAX,
        a.dist_bins[r][k] + distortion <= u64::MAX,
        a.with_distortion_sample(r, k, distortion).mergeable(b),
    ensures
        a.mergeable(b),
        a.merged(b).with_distortion_sample(r, k, distortion) == a.with_distortion_sample(
            r,
            k,
            distortion,
        ).merged(b),
{
    lemma_table_add_sum(a.dist_bins, b.dist_bins, r, k, distortion);
    lemma_table_add_sum(a.dist_counts, b.dist_counts, r, k, 1);
}

/// Every recorded rate sample adds one to the total rate sample count and its
/// rate to the total recorded rate; the distortion statistics stay as they were.
pub proof fn law_rate_sample_counted_once(m: TrackerModel, r: int, k: int, rate: u64)
    requires
        m.wf(),
        0 <= r < TX_SIZES_ALL,
        0 <= k < RDO_NUM_BINS,
        m.rate_counts[r][k] < u64::MAX,
        m.rate_bins[r][k] + rate <= u64::MAX,
    ensures
        table_total(m.with_rate_sample(r, k, rate).rate_counts) == table_total(m.rate_counts) + 1,
        table_total(m.with_rate_sample(r, k, rate).rate_bins) == table_total(m.rate_bins) + rate,
        m.with_rate_sample(r, k, rate).dist_counts == m.dist_counts,
        m.with_rate_sample(r, k, rate).dist_bins == m.dist_bins,
{
    lemma_table_total_add(m.rate_counts, r, k, 1);
    lemma_table_total_add(m.rate_bins, r, k, rate);
}

/// Every recorded distortion sample adds one to the total distortion sample
/// count and its distortion to the total recorded distortion; the rate
/// statistics stay as they were.
pub proof fn law_distortion_sample_counted_once(m: TrackerModel, r: int, k: int, distortion: u64)
    requires
        m.wf(),
        0 <= r < TX_SIZES_ALL,
        0 <= k < RDO_NUM_BINS,
        m.dist_counts[r][k] < u64::MAX,
        m.dist_bins[r][k] + distortion <= u64::MAX,
    ensures
        table_total(m.with_distortion_sample(r, k, distortion).dist_counts) == table_total(
            m.dist_counts,
        ) + 1,
        table_total(m.with_distortion_sample(r, k, distortion).dist_bins) == table_total(
            m.dist_bins,
        ) + distortion,
        m.with_distortion_sample(r, k, distortion).rate_counts == m.rate_counts,
        m.with_distortion_sample(r, k, distortion).rate_bins == m.rate_bins,
{
    lemma_table_total_add(m.dist_counts, r, k, 1);
    lemma_table_total_add(m.dist_bins, r, k, distortion);
}

/// Merging adds the sample counts and totals of the two trackers.
pub proof fn law_merge_adds_totals(a: TrackerModel, b: TrackerModel)
    requires
        a.wf(),
        b.wf(),
        a.mergeable(b),
    ensures
        table_total(a.merged(b).rate_counts) == table_total(a.rate_counts) + table_total(
            b.rate_counts,
        ),
        table_total(a.merged(b).rate_bins) == table_total(a.rate_bins) + table_total(b.rate_bins),
        table_total(a.merged(b).dist_counts) == table_total(a.dist_counts) + table_total(
            b.dist_counts,
        ),
        table_total(a.merged(b).dist_bins) == table_total(a.dist_bins) + table_total(b.dist_bins),
{
    lemma_table_total_sum(a.rate_counts, b.rate_counts);
    lemma_table_total_sum(a.rate_bins, b.rate_bins);
    lemma_table_total_sum(a.dist_counts, b.dist_counts);
    lemma_table_total_sum(a.dist_bins, b.dist_bins);
}

/// At the start of each of the first `RDO_NUM_BINS - 1` rate bins the
/// interpolated rate is exactly the table's entry for that bin.
pub proof fn law_estimate_rate_at_bin_start(ts: TxSize, k: u64)
    requires
        k < RDO_NUM_BINS - 1,
    ensures
        estimate_rate_fits(ts, (k * RATE_EST_BIN_SIZE) as u64),
        estimated_rate(ts, (k * RATE_EST_BIN_SIZE) as u64) == rate_table(tx_size_index(ts), k as int),
{
    let fd = (k * RATE_EST_BIN_SIZE) as u64;
    assert(fd / RATE_EST_BIN_SIZE == k);
    assert(rate_lo_bin(fd) == k);
    assert(rate_offset(fd) == 0);
}

proof fn lemma_interpolation_between(y0: int, y1: int, d: int)
    requires
        0 <= y0,
        0 <= y1,
        0 <= d < 1000,
    ensures
        ({
            let slope = trunc_div((y1 - y0) * 256, 1000);
            let v = y0 + (d * slope) / 256;
            &&& y0 <= y1 ==> y0 <= v <= y1
            &&& y1 < y0 ==> y1 <= v <= y0
        }),
{
    let slope = trunc_div((y1 - y0) * 256, 1000);
    if y0 <= y1 {
        let n = (y1 - y0) * 256;
        assert(0 <= slope && slope * 1000 <= n);
        assert(0 <= d * slope && d * slope <= (y1 - y0) * 256) by (nonlinear_arith)
            requires
                0 <= slope,
                slope * 1000 <= (y1 - y0) * 256,
                0 <= d < 1000,
                y0 <= y1,
        ;
        assert(0 <= (d * slope) / 256 <= y1 - y0);
    } else {
        let m = (y0 - y1) * 256;
        assert(slope == -(m / 1000));
        assert(0 <= m / 1000 && (m / 1000) * 1000 <= m);
        let s = m / 1000;
        assert(0 <= d * s && d * s <= (y0 - y1) * 256) by (nonlinear_arith)
            requires
                0 <= s,
                s * 1000 <= (y0 - y1) * 256,
                0 <= d < 1000,
                y1 < y0,
        ;
        assert(d * slope == -(d * s)) by (nonlinear_arith)
            requires
                slope == -s,
        ;
        assert(y1 - y0 <= (d * slope) / 256 <= 0);
    }
}

/// Within each of the first `RDO_NUM_BINS - 2` rate bins the interpolated rate
/// lies between the table entries of that bin and the next.
pub proof fn law_estimate_rate_between_neighbours(ts: TxSize, fd: u64)
    requires
        fd / RATE_EST_BIN_SIZE < RDO_NUM_BINS - 2,
    ensures
        estimate_rate_fits(ts, fd),
        ({
            let k = (fd / RATE_EST_BIN_SIZE) as int;
            let y0 = rate_table(tx_size_index(ts), k);
            let y1 = rate_table(tx_size_index(ts), k + 1);
            &&& y0 <= y1 ==> y0 <= estimated_rate(ts, fd) <= y1
            &&& y1 < y0 ==> y1 <= estimated_rate(ts, fd) <= y0
        }),
{
    let k = (fd / RATE_EST_BIN_SIZE) as int;
    let row = tx_size_index(ts);
    let y0 = rate_table(row, k) as int;
    let y1 = rate_table(row, k + 1) as int;
    assert(rate_lo_bin(fd) == k);
    assert(rate_hi_bin(fd) == k + 1);
    let d = rate_offset(fd);
    assert(d == fd - k * 1000);
    assert(0 <= d < 1000);
    lemma_interpolation_between(y0, y1, d);
    let slope = rate_slope(ts, fd);
    assert(slope == trunc_div((y1 - y0) * 256, 1000));
    assert(-0x100_0000 <= slope <= 0x100_0000);
    assert(-0x4_0000_0000 <= d * slope <= 0x4_0000_0000) by (nonlinear_arith)
        requires
            0 <= d < 1000,
            -0x100_0000 <= slope <= 0x100_0000,
    ;
}

proof fn lemma_record_wf(m: TrackerModel, s: Sample)
    requires
        m.wf(),
    ensures
        record(m, s).wf(),
{
}

proof fn lemma_record_all_wf(m: TrackerModel, ss: Seq<Sample>)
    requires
        m.wf(),
    ensures
        record_all(m, ss).wf(),
    decreases ss.len(),
{
    if ss.len() > 0 {
        lemma_record_all_wf(m, ss.drop_last());
        lemma_record_wf(record_all(m, ss.drop_last()), ss.last());
    }
}

proof fn lemma_record_all_append(m: TrackerModel, s1: Seq<Sample>, s2: Seq<Sample>)
    ensures
        record_all(m, s1 + s2) == record_all(record_all(m, s1), s2),
        record_all_fits(m, s1 + s2) == (record_all_fits(m, s1) && record_all_fits(
            record_all(m, s1),
            s2,
        )),
    decreases s2.len(),
{
    if s2.len() == 0 {
        assert(s1 + s2 =~= s1);
    } else {
        assert((s1 + s2).drop_last() =~= s1 + s2.drop_last());
        assert((s1 + s2).last() == s2.last());
        lemma_record_all_append(m, s1, s2.drop_last());
    }
}

/// Recording a sample in the tracker merged into another commutes with the
/// merge (the sample on the right-hand tracker).
proof fn lemma_merge_record(x: TrackerModel, z: TrackerModel, s: Sample)
    requires
        x.wf(),
        z.wf(),
        record_fits(z, s),
        x.mergeable(record(z, s)),
    ensures
        x.mergeable(z),
        record_fits(x.merged(z), s),
        x.merged(record(z, s)) == record(x.merged(z), s),
{
    lemma_record_wf(z, s);
    if s.fast_distortion == 0 {
    } else {
        let r = tx_size_index(s.ts);
        law_merge_commutative(x, record(z, s));
        match s.kind {
            SampleKind::Rate => {
                let k = rate_bin(s.fast_distortion);
                law_rate_sample_commutes_with_merge(z, x, r, k, s.value);
                law_merge_commutative(z, x);
                assert(x.merged(z).rate_counts[r][k] == z.rate_counts[r][k] + x.rate_counts[r][k]);
                assert(x.merged(z).rate_bins[r][k] == z.rate_bins[r][k] + x.rate_bins[r][k]);
                assert(record(z, s).rate_counts[r][k] == z.rate_counts[r][k] + 1);
                assert(record(z, s).rate_bins[r][k] == z.rate_bins[r][k] + s.value);
            },
            SampleKind::Distortion => {
                let k = dist_bin(s.fast_distortion);
                law_distortion_sample_commutes_with_merge(z, x, r, k, s.value);
                law_merge_commutative(z, x);
                assert(x.merged(z).dist_counts[r][k] == z.dist_counts[r][k] + x.dist_counts[r][k]);
                assert(x.merged(z).dist_bins[r][k] == z.dist_bins[r][k] + x.dist_bins[r][k]);
                assert(record(z, s).dist_counts[r][k] == z.dist_counts[r][k] + 1);
                assert(record(z, s).dist_bins[r][k] == z.dist_bins[r][k] + s.value);
            },
        }
    }
}

proof fn lemma_merge_record_all(x: TrackerModel, y: TrackerModel, ss: Seq<Sample>)
    requires
        x.wf(),
        y.wf(),
        record_all_fits(y, ss),
        x.mergeable(record_all(y, ss)),
    ensures
        x.mergeable(y),
        record_all_fits(x.merged(y), ss),
        x.merged(record_all(y, ss)) == record_all(x.merged(y), ss),
    decreases ss.len(),
{
    if ss.len() > 0 {
        let rest = ss.drop_last();
        let z = record_all(y, rest);
        lemma_record_all_wf(y, rest);
        lemma_merge_record(x, z, ss.last());
        lemma_merge_record_all(x, y, rest);
    }
}

/// Merging two trackers gives the statistics of one tracker fed both sample
/// streams, in either order: fresh trackers fed the streams `s1` and `s2`,
/// merged, equal a fresh tracker fed `s1` then `s2`, and one fed `s2` then
/// `s1`, whenever no cell overflows.
pub proof fn law_merge_equals_combined_streams(s1: Seq<Sample>, s2: Seq<Sample>)
    requires
        record_all_fits(TrackerModel::empty(), s1),
        record_all_fits(TrackerModel::empty(), s2),
        record_all(TrackerModel::empty(), s1).mergeable(record_all(TrackerModel::empty(), s2)),
    ensures
        record_all_fits(TrackerModel::empty(), s1 + s2),
        record_all_fits(TrackerModel::empty(), s2 + s1),
        record_all(TrackerModel::empty(), s1).merged(record_all(TrackerModel::empty(), s2))
            == record_all(TrackerModel::empty(), s1 + s2),
        record_all(TrackerModel::empty(), s1).merged(record_all(TrackerModel::empty(), s2))
            == record_all(TrackerModel::empty(), s2 + s1),
{
    let e = TrackerModel::empty();
    assert(e.wf()) by {
        assert forall|r: int| 0 <= r < TX_SIZES_ALL implies #[trigger] zero_table()[r].len()
            == RDO_NUM_BINS by {}
    }
    let a = record_all(e, s1);
    let b = record_all(e, s2);
    lemma_record_all_wf(e, s1);
    lemma_record_all_wf(e, s2);
    law_merge_empty_is_identity(a);
    law_merge_empty_is_identity(b);
    lemma_merge_record_all(a, e, s2);
    lemma_record_all_append(e, s1, s2);
    law_merge_commutative(a, b);
    lemma_merge_record_all(b, e, s1);
    lemma_record_all_append(e, s2, s1);
}

/// The rate estimates are the trained rate table for the four trained
/// transform sizes, and zero for every other size.
pub proof fn law_rate_table_is_trained(row: int, bin: int)
    requires
        0 <= row < TX_SIZES_ALL,
        0 <= bin < RDO_NUM_BINS,
    ensures
        row < TRAINED_TX_SIZES ==> rate_table(row, bin) == TRAINED_RATE@[bin]@[row],
        row >= TRAINED_TX_SIZES ==> rate_table(row, bin) == 0,
{
}

/// The distortion estimates are the trained distortion table for the four
/// trained transform sizes, and zero for every other size.
pub proof fn law_distortion_table_is_trained(row: int, bin: int)
    requires
        0 <= row < TX_SIZES_ALL,
        0 <= bin < RDO_NUM_BINS,
    ensures
        row < TRAINED_TX_SIZES ==> distortion_table(row, bin) == TRAINED_DISTORTION@[bin]@[row],
        row >= TRAINED_TX_SIZES ==> distortion_table(row, bin) == 0,
{
}

/// At the start of each of the first `RDO_NUM_BINS - 1` rate bins the rate
/// estimate of a trained transform size is its trained rate for that bin; an
/// untrained size estimates zero everywhere.
pub proof fn law_estimate_rate_at_bin_start_is_trained(ts: TxSize, k: u64, fd: u64)
    requires
        k < RDO_NUM_BINS - 1,
    ensures
        estimate_rate_fits(ts, (k * RATE_EST_BIN_SIZE) as u64),
        tx_size_index(ts) < TRAINED_TX_SIZES ==> estimated_rate(ts, (k * RATE_EST_BIN_SIZE) as u64)
            == TRAINED_RATE@[k as int]@[tx_size_index(ts)],
        tx_size_index(ts) >= TRAINED_TX_SIZES && estimate_rate_fits(ts, fd) ==> estimated_rate(ts, fd)
            == 0,
{
    law_estimate_rate_at_bin_start(ts, k);
    if tx_size_index(ts) >= TRAINED_TX_SIZES {
        assert(rate_slope(ts, fd) == 0);
        assert(rate_offset(fd) * rate_slope(ts, fd) == 0) by (nonlinear_arith)
            requires
                rate_slope(ts, fd) == 0,
        ;
    }
}

/// The distortion estimate of a nonzero fast distortion is the trained
/// distortion of its bin for the four trained transform sizes, and zero for
/// every other size.
pub proof fn law_estimated_distortion_is_trained(ts: TxSize, fd: u64)
    requires
        fd != 0,
    ensures
        tx_size_index(ts) < TRAINED_TX_SIZES ==> distortion_table(tx_size_index(ts), dist_bin(fd))
            == TRAINED_DISTORTION@[dist_bin(fd)]@[tx_size_index(ts)],
        tx_size_index(ts) >= TRAINED_TX_SIZES ==> distortion_table(tx_size_index(ts), dist_bin(fd))
            == 0,
{
}

} // verus!
