use vstd::prelude::*;
use crate::partition::{TxSize, tx_size_index, TX_SIZES_ALL};
use crate::tables::{
    TRAINED_TX_SIZES, TRAINED_DISTORTION, TRAINED_RATE, RDO_NUM_BINS, RDO_BIN_SIZE, RATE_EST_BIN_SIZE, distortion_table, rate_table,
    distortion_table_entry, rate_table_entry,
};

verus! {

/// A table of per-transform-size, per-bin statistics.
pub type StatTable = Seq<Seq<u64>>;

/// A statistics table has one row per transform size and one cell per bin.
pub open spec fn table_shape(t: StatTable) -> bool {
    &&& t.len() == TX_SIZES_ALL
    &&& forall|r: int| 0 <= r < TX_SIZES_ALL ==> #[trigger] t[r].len() == RDO_NUM_BINS
}

/// The table with every cell zero.
pub open spec fn zero_table() -> StatTable {
    Seq::new(TX_SIZES_ALL as nat, |r: int| Seq::new(RDO_NUM_BINS as nat, |c: int| 0u64))
}

/// Whether the cellwise sum of two tables fits in `u64`.
pub open spec fn sum_fits(a: StatTable, b: StatTable) -> bool {
    forall|r: int, c: int|
        0 <= r < TX_SIZES_ALL && 0 <= c < RDO_NUM_BINS ==> #[trigger] a[r][c] + #[trigger] b[r][c]
            <= u64::MAX
}

/// The cellwise sum of two tables.
pub open spec fn table_sum(a: StatTable, b: StatTable) -> StatTable {
    Seq::new(a.len(), |r: int| Seq::new(a[r].len(), |c: int| (a[r][c] + b[r][c]) as u64))
}

/// The table `t` with `x` added to the cell at row `r`, bin `c`.
pub open spec fn table_add(t: StatTable, r: int, c: int, x: u64) -> StatTable {
    t.update(r, t[r].update(c, (t[r][c] + x) as u64))
}

/// The table held by a vector of rows.
pub open spec fn rows_view(v: Seq<Vec<u64>>) -> StatTable {
    v.map_values(|row: Vec<u64>| row@)
}

/// The abstract content of a tracker: four statistics tables.
pub struct TrackerModel {
    pub rate_bins: StatTable,
    pub rate_counts: StatTable,
    pub dist_bins: StatTable,
    pub dist_counts: StatTable,
}

impl TrackerModel {
    pub open spec fn wf(self) -> bool {
        &&& table_shape(self.rate_bins)
        &&& table_shape(self.rate_counts)
        &&& table_shape(self.dist_bins)
        &&& table_shape(self.dist_counts)
    }

    /// The model of a fresh tracker.
    pub open spec fn empty() -> TrackerModel {
        TrackerModel {
            rate_bins: zero_table(),
            rate_counts: zero_table(),
            dist_bins: zero_table(),
            dist_counts: zero_table(),
        }
    }

    /// The model after recording `rate` in row `r`, bin `b` of the rate statistics.
    pub open spec fn with_rate_sample(self, r: int, b: int, rate: u64) -> TrackerModel {
        TrackerModel {
            rate_bins: table_add(self.rate_bins, r, b, rate),
            rate_counts: table_add(self.rate_counts, r, b, 1),
            dist_bins: self.dist_bins,
            dist_counts: self.dist_counts,
        }
    }

    /// The model after recording `distortion` in row `r`, bin `b` of the
    /// distortion statistics.
    pub open spec fn with_distortion_sample(self, r: int, b: int, distortion: u64) -> TrackerModel {
        TrackerModel {
            rate_bins: self.rate_bins,
            rate_counts: self.rate_counts,
            dist_bins: table_add(self.dist_bins, r, b, distortion),
            dist_counts: table_add(self.dist_counts, r, b, 1),
        }
    }

    /// Whether every cell of the merge of `self` and `other` fits in `u64`.
    pub open spec fn mergeable(self, other: TrackerModel) -> bool {
        &&& sum_fits(self.rate_bins, other.rate_bins)
        &&& sum_fits(self.rate_counts, other.rate_counts)
        &&& sum_fits(self.dist_bins, other.dist_bins)
        &&& sum_fits(self.dist_counts, other.dist_counts)
    }

    /// The cellwise sum of two trackers.
    pub open spec fn merged(self, other: TrackerModel) -> TrackerModel {
        TrackerModel {
            rate_bins: table_sum(self.rate_bins, other.rate_bins),
            rate_counts: table_sum(self.rate_counts, other.rate_counts),
            dist_bins: table_sum(self.dist_bins, other.dist_bins),
            dist_counts: table_sum(self.dist_counts, other.dist_counts),
        }
    }
}

/// Bin in which `add_rate` records a sample of fast distortion `fd`.
/// Bins are `RATE_EST_BIN_SIZE` wide and centred on multiples of it; the last
/// bin collects everything beyond, and (as the arithmetic wraps) also every
/// distortion below half a bin.
pub open spec fn rate_bin(fd: u64) -> int {
    if fd < RATE_EST_BIN_SIZE / 2 {
        RDO_NUM_BINS - 1
    } else if (fd - RATE_EST_BIN_SIZE / 2) / (RATE_EST_BIN_SIZE as int) >= RDO_NUM_BINS - 1 {
        RDO_NUM_BINS - 1
    } else {
        (fd - RATE_EST_BIN_SIZE / 2) / (RATE_EST_BIN_SIZE as int)
    }
}

/// The fast distortions for which `add_rate`'s signed arithmetic overflows.
pub open spec fn rate_bin_overflows(fd: u64) -> bool {
    0x8000_0000_0000_0000u64 <= fd < 0x8000_0000_0000_0000u64 + RATE_EST_BIN_SIZE / 2
}

/// Bin of fast distortion `fd` in the distortion statistics.
pub open spec fn dist_bin(fd: u64) -> int {
    if fd / RDO_BIN_SIZE >= RDO_NUM_BINS {
        RDO_NUM_BINS - 1
    } else {
        (fd / RDO_BIN_SIZE) as int
    }
}

/// The two's-complement reading of `x` as an `i64`.
pub open spec fn wrap_i64(x: u64) -> int {
    if x <= i64::MAX {
        x as int
    } else {
        x - 0x1_0000_0000_0000_0000int
    }
}

/// Integer division rounding toward zero, for `b > 0`.
pub open spec fn trunc_div(a: int, b: int) -> int {
    if a >= 0 {
        a / b
    } else {
        -((-a) / b)
    }
}

/// Lower interpolation bin of `estimate_rate`.
pub open spec fn rate_lo_bin(fd: u64) -> int {
    if fd / RATE_EST_BIN_SIZE >= RDO_NUM_BINS - 2 {
        RDO_NUM_BINS - 2
    } else {
        (fd / RATE_EST_BIN_SIZE) as int
    }
}

/// Upper interpolation bin of `estimate_rate`.
pub open spec fn rate_hi_bin(fd: u64) -> int {
    if rate_lo_bin(fd) + 1 >= RDO_NUM_BINS - 1 {
        RDO_NUM_BINS - 1
    } else {
        rate_lo_bin(fd) + 1
    }
}

/// Interpolation slope of `estimate_rate`, in 1/256 units per distortion unit.
pub open spec fn rate_slope(ts: TxSize, fd: u64) -> int {
    let row = tx_size_index(ts);
    let x0 = rate_lo_bin(fd) * RATE_EST_BIN_SIZE;
    let x1 = rate_hi_bin(fd) * RATE_EST_BIN_SIZE;
    trunc_div(
        (rate_table(row, rate_hi_bin(fd)) - rate_table(row, rate_lo_bin(fd))) * 256,
        x1 - x0,
    )
}

/// Distance of the fast distortion (read as `i64`) from the lower bin's start.
pub open spec fn rate_offset(fd: u64) -> int {
    wrap_i64(fd) - rate_lo_bin(fd) * RATE_EST_BIN_SIZE
}

/// Whether `estimate_rate`'s `i64` arithmetic stays in range.
pub open spec fn estimate_rate_fits(ts: TxSize, fd: u64) -> bool {
    &&& i64::MIN <= rate_offset(fd)
    &&& i64::MIN <= rate_offset(fd) * rate_slope(ts, fd) <= i64::MAX
}

/// Linear interpolation of the rate table between the two bins around `fd`,
/// with the product rounded down to whole units, read back as `u64`.
pub open spec fn estimated_rate(ts: TxSize, fd: u64) -> u64 {
    let v = rate_table(tx_size_index(ts), rate_lo_bin(fd)) + (rate_offset(fd) * rate_slope(ts, fd))
        / 256;
    (v % 0x1_0000_0000_0000_0000int) as u64
}

/// Which statistics a sample is recorded in.
#[derive(Clone, Copy, Debug, PartialEq, Eq, Structural)]
pub enum SampleKind {
    Rate,
    Distortion,
}

/// One recorded sample: a call of `add_rate` (kind `Rate`, `value` the rate)
/// or of `add_distortion` (kind `Distortion`, `value` the distortion).
#[derive(Clone, Copy, Debug, PartialEq, Eq, Structural)]
pub struct Sample {
    pub kind: SampleKind,
    pub ts: TxSize,
    pub fast_distortion: u64,
    pub value: u64,
}

/// The model after recording sample `s`; a zero fast distortion records
/// nothing.
pub open spec fn record(m: TrackerModel, s: Sample) -> TrackerModel {
    if s.fast_distortion == 0 {
        m
    } else {
        match s.kind {
            SampleKind::Rate => m.with_rate_sample(
                tx_size_index(s.ts),
                rate_bin(s.fast_distortion),
                s.value,
            ),
            SampleKind::Distortion => m.with_distortion_sample(
                tx_size_index(s.ts),
                dist_bin(s.fast_distortion),
                s.value,
            ),
        }
    }
}

/// Whether recording `s` in `m` stays in range: what `add_rate` and
/// `add_distortion` require.
pub open spec fn record_fits(m: TrackerModel, s: Sample) -> bool {
    s.fast_distortion != 0 ==> match s.kind {
        SampleKind::Rate => {
            &&& !rate_bin_overflows(s.fast_distortion)
            &&& m.rate_counts[tx_size_index(s.ts)][rate_bin(s.fast_distortion)] < u64::MAX
            &&& m.rate_bins[tx_size_index(s.ts)][rate_bin(s.fast_distortion)] + s.value
                <= u64::MAX
        },
        SampleKind::Distortion => {
            &&& m.dist_counts[tx_size_index(s.ts)][dist_bin(s.fast_distortion)] < u64::MAX
            &&& m.dist_bins[tx_size_index(s.ts)][dist_bin(s.fast_distortion)] + s.value
                <= u64::MAX
        },
    }
}

/// The model after recording the samples of `ss` in order.
pub open spec fn record_all(m: TrackerModel, ss: Seq<Sample>) -> TrackerModel
    decreases ss.len(),
{
    if ss.len() == 0 {
        m
    } else {
        record(record_all(m, ss.drop_last()), ss.last())
    }
}

/// Whether every sample of `ss` stays in range when they are recorded in
/// order, starting from `m`.
pub open spec fn record_all_fits(m: TrackerModel, ss: Seq<Sample>) -> bool
    decreases ss.len(),
{
    if ss.len() == 0 {
        true
    } else {
        record_all_fits(m, ss.drop_last()) && record_fits(record_all(m, ss.drop_last()), ss.last())
    }
}

/// Collects rate and distortion statistics per transform size and bin of fast
/// distortion.
#[derive(Debug)]
pub struct RDOTracker {
    rate_bins: Vec<Vec<u64>>,
    rate_counts: Vec<Vec<u64>>,
    dist_bins: Vec<Vec<u64>>,
    dist_counts: Vec<Vec<u64>>,
}

impl View for RDOTracker {
    type V = TrackerModel;

    closed spec fn view(&self) -> TrackerModel {
        TrackerModel {
            rate_bins: rows_view(self.rate_bins@),
            rate_counts: rows_view(self.rate_counts@),
            dist_bins: rows_view(self.dist_bins@),
            dist_counts: rows_view(self.dist_counts@),
        }
    }
}

fn zero_rows() -> (t: Vec<Vec<u64>>)
    ensures
        rows_view(t@) == zero_table(),
{
    let mut t: Vec<Vec<u64>> = Vec::new();
    let mut r: usize = 0;
    while r < TX_SIZES_ALL
        invariant
            r <= TX_SIZES_ALL,
            t.len() == r,
            forall|i: int| 0 <= i < r ==> #[trigger] t[i]@ == zero_table()[i],
        decreases TX_SIZES_ALL - r,
    {
        let mut row: Vec<u64> = Vec::new();
        let mut c: usize = 0;
        while c < RDO_NUM_BINS
            invariant
                c <= RDO_NUM_BINS,
                row.len() == c,
                forall|j: int| 0 <= j < c ==> #[trigger] row[j] == 0u64,
            decreases RDO_NUM_BINS - c,
        {
            row.push(0);
            c = c + 1;
        }
        assert(row@ == zero_table()[r as int]);
        t.push(row);
        r = r + 1;
    }
    assert(rows_view(t@) =~= zero_table());
    t
}

/// Adds `x` to the cell at row `r`, bin `c`.
fn add_to_cell(t: &mut Vec<Vec<u64>>, r: usize, c: usize, x: u64)
    requires
        r < old(t).len(),
        c < old(t)[r as int].len(),
        old(t)[r as int][c as int] + x <= u64::MAX,
    ensures
        rows_view(final(t)@) == table_add(rows_view(old(t)@), r as int, c as int, x),
    no_unwind
{
    let v = t[r][c] + x;
    t[r][c] = v;
    assert(rows_view(t@) =~= table_add(rows_view(old(t)@), r as int, c as int, x));
}

fn rate_bin_index(fd: u64) -> (b: usize)
    ensures
        b == rate_bin(fd),
        b < RDO_NUM_BINS,
{
    if fd < RATE_EST_BIN_SIZE / 2 {
        RDO_NUM_BINS - 1
    } else {
        let t = (fd - RATE_EST_BIN_SIZE / 2) / RATE_EST_BIN_SIZE;
        if t >= (RDO_NUM_BINS - 1) as u64 {
            RDO_NUM_BINS - 1
        } else {
            t as usize
        }
    }
}

fn dist_bin_index(fd: u64) -> (b: usize)
    ensures
        b == dist_bin(fd),
        b < RDO_NUM_BINS,
{
    let t = fd / RDO_BIN_SIZE;
    if t >= RDO_NUM_BINS as u64 {
        RDO_NUM_BINS - 1
    } else {
        t as usize
    }
}

impl RDOTracker {
    /// Every table has one row per transform size and one cell per bin.
    #[verifier::type_invariant]
    spec fn inv(&self) -> bool {
        self@.wf()
    }

    /// A tracker with every statistic zero.
    pub fn new() -> (t: RDOTracker)
        ensures
            t@ == TrackerModel::empty(),
            t@.wf(),
    {
        RDOTracker {
            rate_bins: zero_rows(),
            rate_counts: zero_rows(),
            dist_bins: zero_rows(),
            dist_counts: zero_rows(),
        }
    }

    /// Records the coded rate `rate` of a block of transform size `ts` and fast
    /// distortion `fast_distortion`, in the bin `rate_bin(fast_distortion)`;
    /// a zero fast distortion records nothing.
    pub fn add_rate(&mut self, ts: TxSize, fast_distortion: u64, rate: u64)
        requires
            fast_distortion != 0 ==> !rate_bin_overflows(fast_distortion),
            fast_distortion != 0 ==> old(self)@.rate_counts[tx_size_index(ts)][rate_bin(
                fast_distortion,
            )] < u64::MAX,
            fast_distortion != 0 ==> old(self)@.rate_bins[tx_size_index(ts)][rate_bin(
                fast_distortion,
            )] + rate <= u64::MAX,
        ensures
            final(self)@.wf(),
            fast_distortion == 0 ==> final(self)@ == old(self)@,
            fast_distortion != 0 ==> final(self)@ == old(self)@.with_rate_sample(
                tx_size_index(ts),
                rate_bin(fast_distortion),
                rate,
            ),
            final(self)@ == record(
                old(self)@,
                (Sample { kind: SampleKind::Rate, ts, fast_distortion, value: rate }),
            ),
    {
        proof {
            use_type_invariant(&*self);
        }
        if fast_distortion != 0 {
            let bs_index = ts.index();
            let bin_idx = rate_bin_index(fast_distortion);
            add_to_cell(&mut self.rate_counts, bs_index, bin_idx, 1);
            add_to_cell(&mut self.rate_bins, bs_index, bin_idx, rate);
        }
    }

    /// Records the distortion `distortion` of a block of transform size `ts`
    /// and fast distortion `fast_distortion`, in the bin
    /// `dist_bin(fast_distortion)`; a zero fast distortion records nothing.
    pub fn add_distortion(&mut self, ts: TxSize, fast_distortion: u64, distortion: u64)
        requires
            fast_distortion != 0 ==> old(self)@.dist_counts[tx_size_index(ts)][dist_bin(
                fast_distortion,
            )] < u64::MAX,
            fast_distortion != 0 ==> old(self)@.dist_bins[tx_size_index(ts)][dist_bin(
                fast_distortion,
            )] + distortion <= u64::MAX,
        ensures
            final(self)@.wf(),
            fast_distortion == 0 ==> final(self)@ == old(self)@,
            fast_distortion != 0 ==> final(self)@ == old(self)@.with_distortion_sample(
                tx_size_index(ts),
                dist_bin(fast_distortion),
                distortion,
            ),
            final(self)@ == record(
                old(self)@,
                (Sample { kind: SampleKind::Distortion, ts, fast_distortion, value: distortion }),
            ),
    {
        proof {
            use_type_invariant(&*self);
        }
        if fast_distortion != 0 {
            let bs_index = ts.index();
            let bin_idx = dist_bin_index(fast_distortion);
            add_to_cell(&mut self.dist_counts, bs_index, bin_idx, 1);
            add_to_cell(&mut self.dist_bins, bs_index, bin_idx, distortion);
        }
    }

    /// The trained distortion estimate for a block of transform size `ts` and
    /// fast distortion `fast_distortion`: zero for a zero fast distortion,
    /// else the distortion table's entry for the bin `dist_bin(fast_distortion)`.
    pub fn estimate_distortion(&self, ts: TxSize, fast_distortion: u64) -> (d: u64)
        ensures
            fast_distortion == 0 ==> d == 0,
            fast_distortion != 0 ==> d == distortion_table(
                tx_size_index(ts),
                dist_bin(fast_distortion),
            ),
            fast_distortion != 0 && tx_size_index(ts) < TRAINED_TX_SIZES ==> d
                == TRAINED_DISTORTION@[dist_bin(fast_distortion)]@[tx_size_index(ts)],
            tx_size_index(ts) >= TRAINED_TX_SIZES ==> d == 0,
    {
        if fast_distortion != 0 {
            let bs_index = ts.index();
            let bin_idx = dist_bin_index(fast_distortion);
            distortion_table_entry(bs_index, bin_idx)
        } else {
            0
        }
    }

    /// The trained rate estimate for a block of transform size `ts` and fast
    /// distortion `fast_distortion`: the rate table interpolated linearly
    /// between the bins around it (see `estimated_rate`).
    pub fn estimate_rate(&self, ts: TxSize, fast_distortion: u64) -> (r: u64)
        requires
            estimate_rate_fits(ts, fast_distortion),
        ensures
            r == estimated_rate(ts, fast_distortion),
            fast_distortion % RATE_EST_BIN_SIZE == 0 && fast_distortion / RATE_EST_BIN_SIZE
                < RDO_NUM_BINS - 1 && tx_size_index(ts) < TRAINED_TX_SIZES ==> r
                == TRAINED_RATE@[(fast_distortion / RATE_EST_BIN_SIZE) as int]@[tx_size_index(ts)],
            tx_size_index(ts) >= TRAINED_TX_SIZES ==> r == 0,
    {
        let bs_index = ts.index();
        let q: u64 = fast_distortion / RATE_EST_BIN_SIZE;
        let bin_idx_down: u64 = if q >= (RDO_NUM_BINS - 2) as u64 {
            (RDO_NUM_BINS - 2) as u64
        } else {
            q
        };
        let bin_idx_up: u64 = if bin_idx_down + 1 >= (RDO_NUM_BINS - 1) as u64 {
            (RDO_NUM_BINS - 1) as u64
        } else {
            bin_idx_down + 1
        };
        let x0: i128 = (bin_idx_down * RATE_EST_BIN_SIZE) as i128;
        let x1: i128 = (bin_idx_up * RATE_EST_BIN_SIZE) as i128;
        let y0: i128 = rate_table_entry(bs_index, bin_idx_down as usize) as i128;
        let y1: i128 = rate_table_entry(bs_index, bin_idx_up as usize) as i128;
        let num: i128 = (y1 - y0) * 256;
        let den: i128 = x1 - x0;
        let slope: i128 = if num >= 0 {
            num / den
        } else {
            -((-num) / den)
        };
        let fd_signed: i128 = if fast_distortion <= i64::MAX as u64 {
            fast_distortion as i128
        } else {
            fast_distortion as i128 - 0x1_0000_0000_0000_0000i128
        };
        let offset: i128 = fd_signed - x0;
        let prod: i128 = offset * slope;
        let shifted: i128 = if prod >= 0 {
            prod / 256
        } else {
            -((-prod + 255) / 256)
        };
        assert(shifted == prod as int / 256);
        proof {
            if fast_distortion % RATE_EST_BIN_SIZE == 0 && fast_distortion / RATE_EST_BIN_SIZE
                < RDO_NUM_BINS - 1 {
                assert(bin_idx_down == fast_distortion / RATE_EST_BIN_SIZE);
                assert(x0 == fast_distortion);
                assert(offset == 0);
                assert(offset * slope == 0) by (nonlinear_arith)
                    requires
                        offset == 0,
                ;
            }
            if bs_index >= TRAINED_TX_SIZES {
                assert(y0 == 0 && y1 == 0);
                assert(slope == 0);
                assert(offset * slope == 0) by (nonlinear_arith)
                    requires
                        slope == 0,
                ;
            }
        }
        let v: i128 = y0 + shifted;
        if v >= 0 {
            v as u64
        } else {
            (v + 0x1_0000_0000_0000_0000i128) as u64
        }
    }

    /// Adds `src` to `dst` element by element, over the shorter of the two.
    fn merge_array(dst: &mut Vec<u64>, src: &Vec<u64>)
        requires
            forall|i: int|
                0 <= i < old(dst).len() && i < src.len() ==> #[trigger] old(dst)[i] + src[i]
                    <= u64::MAX,
        ensures
            final(dst).len() == old(dst).len(),
            forall|i: int|
                0 <= i < old(dst).len() ==> #[trigger] final(dst)[i] == if i < src.len() {
                    (old(dst)[i] + src[i]) as u64
                } else {
                    old(dst)[i]
                },
        no_unwind
    {
        let n = if dst.len() < src.len() {
            dst.len()
        } else {
            src.len()
        };
        let mut i: usize = 0;
        while i < n
            invariant
                n <= dst.len(),
                n <= src.len(),
                i <= n,
                dst.len() == old(dst).len(),
                n == old(dst).len() || n == src.len(),
                forall|k: int|
                    0 <= k < old(dst).len() && k < src.len() ==> #[trigger] old(dst)[k] + src[k]
                        <= u64::MAX,
                forall|k: int|
                    0 <= k < old(dst).len() ==> #[trigger] dst[k] == if k < i {
                        (old(dst)[k] + src[k]) as u64
                    } else {
                        old(dst)[k]
                    },
            decreases n - i,
        {
            let v = dst[i] + src[i];
            dst[i] = v;
            i = i + 1;
        }
    }

    /// Adds the rows of `src` to those of `dst`, over the shorter of the two.
    fn merge_2d_array(dst: &mut Vec<Vec<u64>>, src: &Vec<Vec<u64>>)
        requires
            table_shape(rows_view(old(dst)@)),
            table_shape(rows_view(src@)),
            sum_fits(rows_view(old(dst)@), rows_view(src@)),
        ensures
            rows_view(final(dst)@) == table_sum(rows_view(old(dst)@), rows_view(src@)),
        no_unwind
    {
        let n = if dst.len() < src.len() {
            dst.len()
        } else {
            src.len()
        };
        let ghost a = rows_view(old(dst)@);
        let ghost b = rows_view(src@);
        let mut i: usize = 0;
        while i < n
            invariant
                n == TX_SIZES_ALL,
                table_shape(a),
                table_shape(b),
                sum_fits(a, b),
                b == rows_view(src@),
                i <= n,
                dst.len() == n,
                forall|k: int|
                    0 <= k < n ==> #[trigger] dst[k]@ == if k < i {
                        table_sum(a, b)[k]
                    } else {
                        a[k]
                    },
            decreases n - i,
        {
            proof {
                assert(forall|c: int|
                    0 <= c < RDO_NUM_BINS ==> a[i as int][c] + b[i as int][c] <= u64::MAX);
            }
            RDOTracker::merge_array(&mut dst[i], &src[i]);
            proof {
                assert(dst[i as int]@ =~= table_sum(a, b)[i as int]);
            }
            i = i + 1;
        }
        assert(rows_view(dst@) =~= table_sum(a, b));
    }

    /// Adds every statistic of `input` to the matching statistic of `self`.
    pub fn merge_in(&mut self, input: &RDOTracker)
        requires
            old(self)@.mergeable(input@),
        ensures
            final(self)@.wf(),
            final(self)@ == old(self)@.merged(input@),
    {
        proof {
            use_type_invariant(&*self);
            use_type_invariant(input);
        }
        RDOTracker::merge_2d_array(&mut self.rate_bins, &input.rate_bins);
        RDOTracker::merge_2d_array(&mut self.rate_counts, &input.rate_counts);
        RDOTracker::merge_2d_array(&mut self.dist_bins, &input.dist_bins);
        RDOTracker::merge_2d_array(&mut self.dist_counts, &input.dist_counts);
    }

    /// Whether `add_rate` can record this sample: a zero fast distortion
    /// always can; otherwise the bin's arithmetic stays in range and neither
    /// its count nor its total overflows.
    pub fn can_add_rate(&self, ts: TxSize, fast_distortion: u64, rate: u64) -> (b: bool)
        ensures
            b == (fast_distortion != 0 ==> {
                &&& !rate_bin_overflows(fast_distortion)
                &&& self@.rate_counts[tx_size_index(ts)][rate_bin(fast_distortion)] < u64::MAX
                &&& self@.rate_bins[tx_size_index(ts)][rate_bin(fast_distortion)] + rate
                    <= u64::MAX
            }),
    {
        proof {
            use_type_invariant(self);
        }
        if fast_distortion == 0 {
            return true;
        }
        let bs_index = ts.index();
        let bin_idx = rate_bin_index(fast_distortion);
        assert(self@.rate_counts[bs_index as int].len() == RDO_NUM_BINS);
        assert(self@.rate_bins[bs_index as int].len() == RDO_NUM_BINS);
        let overflows = 0x8000_0000_0000_0000u64 <= fast_distortion && fast_distortion
            < 0x8000_0000_0000_0000u64 + RATE_EST_BIN_SIZE / 2;
        !overflows && self.rate_counts[bs_index][bin_idx] < u64::MAX
            && self.rate_bins[bs_index][bin_idx] <= u64::MAX - rate
    }

    /// Whether `add_distortion` can record this sample: a zero fast distortion
    /// always can; otherwise neither the bin's count nor its total overflows.
    pub fn can_add_distortion(&self, ts: TxSize, fast_distortion: u64, distortion: u64) -> (b: bool)
        ensures
            b == (fast_distortion != 0 ==> {
                &&& self@.dist_counts[tx_size_index(ts)][dist_bin(fast_distortion)] < u64::MAX
                &&& self@.dist_bins[tx_size_index(ts)][dist_bin(fast_distortion)] + distortion
                    <= u64::MAX
            }),
    {
        proof {
            use_type_invariant(self);
        }
        if fast_distortion == 0 {
            return true;
        }
        let bs_index = ts.index();
        let bin_idx = dist_bin_index(fast_distortion);
        assert(self@.dist_counts[bs_index as int].len() == RDO_NUM_BINS);
        assert(self@.dist_bins[bs_index as int].len() == RDO_NUM_BINS);
        self.dist_counts[bs_index][bin_idx] < u64::MAX && self.dist_bins[bs_index][bin_idx]
            <= u64::MAX - distortion
    }

    /// Whether `merge_in` can merge `input` into this tracker without any
    /// statistic overflowing.
    pub fn can_merge(&self, input: &RDOTracker) -> (b: bool)
        ensures
            b == self@.mergeable(input@),
    {
        proof {
            use_type_invariant(self);
            use_type_invariant(input);
        }
        let a = tables_sum_fits(&self.rate_bins, &input.rate_bins);
        let b = tables_sum_fits(&self.rate_counts, &input.rate_counts);
        let c = tables_sum_fits(&self.dist_bins, &input.dist_bins);
        let d = tables_sum_fits(&self.dist_counts, &input.dist_counts);
        a && b && c && d
    }

    /// The four statistics tables, in the order rate totals, rate counts,
    /// distortion totals, distortion counts.
    pub fn tables(&self) -> (t: (Vec<Vec<u64>>, Vec<Vec<u64>>, Vec<Vec<u64>>, Vec<Vec<u64>>))
        ensures
            rows_view(t.0@) == self@.rate_bins,
            rows_view(t.1@) == self@.rate_counts,
            rows_view(t.2@) == self@.dist_bins,
            rows_view(t.3@) == self@.dist_counts,
    {
        (
            copy_table(&self.rate_bins),
            copy_table(&self.rate_counts),
            copy_table(&self.dist_bins),
            copy_table(&self.dist_counts),
        )
    }

    /// The tracker holding the given statistics tables (see `tables`), or
    /// `None` unless each has one row per transform size and one cell per bin.
    pub fn from_tables(
        rate_bins: Vec<Vec<u64>>,
        rate_counts: Vec<Vec<u64>>,
        dist_bins: Vec<Vec<u64>>,
        dist_counts: Vec<Vec<u64>>,
    ) -> (t: Option<RDOTracker>)
        ensures
            t is Some <==> (table_shape(rows_view(rate_bins@)) && table_shape(rows_view(rate_counts@))
                && table_shape(rows_view(dist_bins@)) && table_shape(rows_view(dist_counts@))),
            t matches Some(tr) ==> tr@ == (TrackerModel {
                rate_bins: rows_view(rate_bins@),
                rate_counts: rows_view(rate_counts@),
                dist_bins: rows_view(dist_bins@),
                dist_counts: rows_view(dist_counts@),
            }),
    {
        if has_table_shape(&rate_bins) && has_table_shape(&rate_counts) && has_table_shape(&dist_bins)
            && has_table_shape(&dist_counts) {
            Some(RDOTracker { rate_bins, rate_counts, dist_bins, dist_counts })
        } else {
            None
        }
    }

    /// The bins of the 32x32 distortion statistics that hold samples, each with
    /// its mean distortion, in bin order.
    pub fn distortion_bin_averages(&self) -> (v: Vec<(usize, u64)>)
        ensures
            v@ == nonzero_averages(
                self@.dist_bins[tx_size_index(TxSize::TX_32X32)],
                self@.dist_counts[tx_size_index(TxSize::TX_32X32)],
                RDO_NUM_BINS as int,
            ),
    {
        proof {
            use_type_invariant(self);
        }
        let bs_index = TxSize::TX_32X32.index();
        assert(self@.dist_bins[bs_index as int].len() == RDO_NUM_BINS);
        assert(self@.dist_counts[bs_index as int].len() == RDO_NUM_BINS);
        bin_averages(&self.dist_bins[bs_index], &self.dist_counts[bs_index])
    }

    /// The bins of the 4x4 rate statistics that hold samples, each with its
    /// mean rate, in bin order.
    pub fn rate_bin_averages(&self) -> (v: Vec<(usize, u64)>)
        ensures
            v@ == nonzero_averages(self@.rate_bins[0], self@.rate_counts[0], RDO_NUM_BINS as int),
    {
        proof {
            use_type_invariant(self);
        }
        let bs_index: usize = 0;
        assert(self@.rate_bins[0].len() == RDO_NUM_BINS);
        assert(self@.rate_counts[0].len() == RDO_NUM_BINS);
        bin_averages(&self.rate_bins[bs_index], &self.rate_counts[bs_index])
    }

    /// The mean distortion of every cell of the distortion statistics, zero
    /// where a cell holds no sample: a new distortion table.
    pub fn distortion_average_table(&self) -> (t: Vec<Vec<u64>>)
        ensures
            rows_view(t@) == average_table(self@.dist_bins, self@.dist_counts),
    {
        proof {
            use_type_invariant(self);
        }
        table_averages(&self.dist_bins, &self.dist_counts)
    }

    /// The mean rate of every cell of the rate statistics, zero where a cell
    /// holds no sample: a new rate table.
    pub fn rate_average_table(&self) -> (t: Vec<Vec<u64>>)
        ensures
            rows_view(t@) == average_table(self@.rate_bins, self@.rate_counts),
    {
        proof {
            use_type_invariant(self);
        }
        table_averages(&self.rate_bins, &self.rate_counts)
    }
}

/// Mean of a cell: its total over its count, or zero for an empty cell.
pub open spec fn cell_average(total: u64, count: u64) -> u64 {
    if count != 0 {
        total / count
    } else {
        0
    }
}

/// The cellwise means of a table of totals and a table of counts.
pub open spec fn average_table(totals: StatTable, counts: StatTable) -> StatTable {
    Seq::new(
        totals.len(),
        |r: int| Seq::new(totals[r].len(), |c: int| cell_average(totals[r][c], counts[r][c])),
    )
}

/// The bins among the first `n` whose count is nonzero, in order, each paired
/// with its mean.
pub open spec fn nonzero_averages(totals: Seq<u64>, counts: Seq<u64>, n: int) -> Seq<(usize, u64)>
    decreases n,
{
    if n <= 0 {
        seq![]
    } else {
        let prev = nonzero_averages(totals, counts, n - 1);
        if counts[n - 1] != 0 {
            prev.push(((n - 1) as usize, totals[n - 1] / counts[n - 1]))
        } else {
            prev
        }
    }
}

fn bin_averages(totals: &Vec<u64>, counts: &Vec<u64>) -> (v: Vec<(usize, u64)>)
    requires
        totals.len() == counts.len(),
    ensures
        v@ == nonzero_averages(totals@, counts@, totals.len() as int),
{
    let mut v: Vec<(usize, u64)> = Vec::new();
    let mut i: usize = 0;
    while i < totals.len()
        invariant
            i <= totals.len(),
            totals.len() == counts.len(),
            v@ == nonzero_averages(totals@, counts@, i as int),
        decreases totals.len() - i,
    {
        if counts[i] != 0 {
            v.push((i, totals[i] / counts[i]));
        }
        i = i + 1;
    }
    v
}

fn table_averages(totals: &Vec<Vec<u64>>, counts: &Vec<Vec<u64>>) -> (t: Vec<Vec<u64>>)
    requires
        table_shape(rows_view(totals@)),
        table_shape(rows_view(counts@)),
    ensures
        rows_view(t@) == average_table(rows_view(totals@), rows_view(counts@)),
{
    let ghost a = average_table(rows_view(totals@), rows_view(counts@));
    let mut t: Vec<Vec<u64>> = Vec::new();
    let mut r: usize = 0;
    while r < totals.len()
        invariant
            r <= totals.len(),
            table_shape(rows_view(totals@)),
            table_shape(rows_view(counts@)),
            a == average_table(rows_view(totals@), rows_view(counts@)),
            t.len() == r,
            forall|i: int| 0 <= i < r ==> #[trigger] t[i]@ == a[i],
        decreases totals.len() - r,
    {
        assert(rows_view(totals@)[r as int].len() == RDO_NUM_BINS);
        assert(rows_view(counts@)[r as int].len() == RDO_NUM_BINS);
        let mut row: Vec<u64> = Vec::new();
        let mut c: usize = 0;
        while c < totals[r].len()
            invariant
                r < totals.len(),
                totals[r as int].len() == RDO_NUM_BINS,
                counts[r as int].len() == RDO_NUM_BINS,
                c <= totals[r as int].len(),
                table_shape(rows_view(totals@)),
                table_shape(rows_view(counts@)),
                row.len() == c,
                forall|j: int|
                    0 <= j < c ==> #[trigger] row[j] == cell_average(
                        totals[r as int][j],
                        counts[r as int][j],
                    ),
            decreases totals[r as int].len() - c,
        {
            let x = if counts[r][c] != 0 {
                totals[r][c] / counts[r][c]
            } else {
                0
            };
            row.push(x);
            c = c + 1;
        }
        assert(row@ =~= a[r as int]);
        t.push(row);
        r = r + 1;
    }
    assert(rows_view(t@) =~= a);
    t
}


fn tables_sum_fits(a: &Vec<Vec<u64>>, b: &Vec<Vec<u64>>) -> (fits: bool)
    requires
        table_shape(rows_view(a@)),
        table_shape(rows_view(b@)),
    ensures
        fits == sum_fits(rows_view(a@), rows_view(b@)),
{
    let ghost ta = rows_view(a@);
    let ghost tb = rows_view(b@);
    let mut r: usize = 0;
    while r < TX_SIZES_ALL
        invariant
            r <= TX_SIZES_ALL,
            ta == rows_view(a@),
            tb == rows_view(b@),
            table_shape(ta),
            table_shape(tb),
            forall|i: int, c: int|
                0 <= i < r && 0 <= c < RDO_NUM_BINS ==> #[trigger] ta[i][c] + #[trigger] tb[i][c]
                    <= u64::MAX,
        decreases TX_SIZES_ALL - r,
    {
        assert(ta[r as int].len() == RDO_NUM_BINS);
        assert(tb[r as int].len() == RDO_NUM_BINS);
        let mut c: usize = 0;
        while c < RDO_NUM_BINS
            invariant
                r < TX_SIZES_ALL,
                c <= RDO_NUM_BINS,
                ta == rows_view(a@),
                tb == rows_view(b@),
                table_shape(ta),
                table_shape(tb),
                ta[r as int].len() == RDO_NUM_BINS,
                tb[r as int].len() == RDO_NUM_BINS,
                forall|i: int, k: int|
                    0 <= i < r && 0 <= k < RDO_NUM_BINS ==> #[trigger] ta[i][k] + #[trigger] tb[i][k]
                        <= u64::MAX,
                forall|k: int| 0 <= k < c ==> #[trigger] ta[r as int][k] + tb[r as int][k] <= u64::MAX,
            decreases RDO_NUM_BINS - c,
        {
            if a[r][c] > u64::MAX - b[r][c] {
                assert(ta[r as int][c as int] + tb[r as int][c as int] > u64::MAX);
                return false;
            }
            c = c + 1;
        }
        r = r + 1;
    }
    true
}

/// Whether `estimate_rate`'s arithmetic stays in range for this transform size
/// and fast distortion.
pub fn estimate_rate_is_defined(ts: TxSize, fast_distortion: u64) -> (b: bool)
    ensures
        b == estimate_rate_fits(ts, fast_distortion),
{
    let bs_index = ts.index();
    let q: u64 = fast_distortion / RATE_EST_BIN_SIZE;
    let lo: u64 = if q >= (RDO_NUM_BINS - 2) as u64 {
        (RDO_NUM_BINS - 2) as u64
    } else {
        q
    };
    let hi: u64 = if lo + 1 >= (RDO_NUM_BINS - 1) as u64 {
        (RDO_NUM_BINS - 1) as u64
    } else {
        lo + 1
    };
    let x0: i128 = (lo * RATE_EST_BIN_SIZE) as i128;
    let x1: i128 = (hi * RATE_EST_BIN_SIZE) as i128;
    let y0: i128 = rate_table_entry(bs_index, lo as usize) as i128;
    let y1: i128 = rate_table_entry(bs_index, hi as usize) as i128;
    let num: i128 = (y1 - y0) * 256;
    let den: i128 = x1 - x0;
    assert(hi == lo + 1);
    assert(den == 1000);
    assert(-0x100_0000_0000_0000_0000 <= num <= 0x100_0000_0000_0000_0000);
    let slope: i128 = if num >= 0 {
        num / den
    } else {
        -((-num) / den)
    };
    let fd_signed: i128 = if fast_distortion <= i64::MAX as u64 {
        fast_distortion as i128
    } else {
        fast_distortion as i128 - 0x1_0000_0000_0000_0000i128
    };
    let offset: i128 = fd_signed - x0;
    proof {
        lemma_interpolation_product_fits(num, slope, offset);
    }
    let prod: i128 = offset * slope;
    i64::MIN as i128 <= offset && i64::MIN as i128 <= prod && prod <= i64::MAX as i128
}


proof fn lemma_interpolation_product_fits(num: i128, slope: i128, offset: i128)
    requires
        -0x100_0000_0000_0000_0000 <= num <= 0x100_0000_0000_0000_0000,
        slope == trunc_div(num as int, 1000),
        -0x8000_0000_0001_0000 <= offset <= 0x8000_0000_0001_0000,
    ensures
        -0x2200_0000_0000_0000_0000_0000_0000_0000 <= offset * slope
            <= 0x2200_0000_0000_0000_0000_0000_0000_0000,
{
    assert(-0x4200_0000_0000_0000 <= slope <= 0x4200_0000_0000_0000);
    assert(-0x2200_0000_0000_0000_0000_0000_0000_0000 <= offset * slope
        <= 0x2200_0000_0000_0000_0000_0000_0000_0000) by (nonlinear_arith)
        requires
            -0x4200_0000_0000_0000 <= slope <= 0x4200_0000_0000_0000,
            -0x8000_0000_0001_0000 <= offset <= 0x8000_0000_0001_0000,
    ;
}


fn copy_table(t: &Vec<Vec<u64>>) -> (c: Vec<Vec<u64>>)
    ensures
        rows_view(c@) == rows_view(t@),
{
    let mut c: Vec<Vec<u64>> = Vec::new();
    let mut r: usize = 0;
    while r < t.len()
        invariant
            r <= t.len(),
            c.len() == r,
            forall|i: int| 0 <= i < r ==> #[trigger] c[i]@ == t[i]@,
        decreases t.len() - r,
    {
        let mut row: Vec<u64> = Vec::new();
        let mut k: usize = 0;
        while k < t[r].len()
            invariant
                r < t.len(),
                k <= t[r as int].len(),
                row@ == t[r as int]@.subrange(0, k as int),
            decreases t[r as int].len() - k,
        {
            row.push(t[r][k]);
            k = k + 1;
        }
        assert(row@ =~= t[r as int]@);
        c.push(row);
        r = r + 1;
    }
    assert(rows_view(c@) =~= rows_view(t@));
    c
}

fn has_table_shape(t: &Vec<Vec<u64>>) -> (b: bool)
    ensures
        b == table_shape(rows_view(t@)),
{
    if t.len() != TX_SIZES_ALL {
        return false;
    }
    let mut r: usize = 0;
    while r < TX_SIZES_ALL
        invariant
            t.len() == TX_SIZES_ALL,
            r <= TX_SIZES_ALL,
            forall|i: int| 0 <= i < r ==> #[trigger] rows_view(t@)[i].len() == RDO_NUM_BINS,
        decreases TX_SIZES_ALL - r,
    {
        if t[r].len() != RDO_NUM_BINS {
            assert(rows_view(t@)[r as int].len() != RDO_NUM_BINS);
            return false;
        }
        r = r + 1;
    }
    true
}

} // verus!
