use vstd::prelude::*;

verus! {

/// A plane of pixels, stored row by row.
pub struct Plane {
    pub data: Vec<Vec<u16>>,
}

/// A view of a plane whose origin is at column `x`, row `y`.
#[derive(Clone, Copy)]
pub struct PlaneSlice<'a> {
    pub plane: &'a Plane,
    pub x: usize,
    pub y: usize,
}

/// Pixel at column `i`, row `j` of slice `s`.
pub open spec fn px(s: PlaneSlice, i: int, j: int) -> int {
    s.plane.data@[s.y + j]@[s.x + i] as int
}

/// Whether the `w` by `h` block at the origin of `s` lies in the plane.
pub open spec fn covers(s: PlaneSlice, w: int, h: int) -> bool {
    &&& w >= 0
    &&& h >= 0
    &&& s.y + h <= s.plane.data.len()
    &&& forall|j: int| 0 <= j < h ==> s.x + w <= #[trigger] s.plane.data@[s.y + j].len()
}

/// Sum of `f` over the pixel pairs of the first `w` columns of row `j`.
pub open spec fn row_sum(
    s1: PlaneSlice,
    s2: PlaneSlice,
    j: int,
    w: int,
    f: spec_fn(int, int) -> int,
) -> int
    decreases w,
{
    if w <= 0 {
        0
    } else {
        row_sum(s1, s2, j, w - 1, f) + f(px(s1, w - 1, j), px(s2, w - 1, j))
    }
}

/// Sum of `f` over the pixel pairs of the `w` by `h` block.
pub open spec fn block_sum(
    s1: PlaneSlice,
    s2: PlaneSlice,
    w: int,
    h: int,
    f: spec_fn(int, int) -> int,
) -> int
    decreases h,
{
    if h <= 0 {
        0
    } else {
        block_sum(s1, s2, w, h - 1, f) + row_sum(s1, s2, h - 1, w, f)
    }
}

/// The two's-complement reading of a pixel as an `i16`.
pub open spec fn as_i16(a: int) -> int {
    if a <= i16::MAX {
        a
    } else {
        a - 0x1_0000
    }
}

/// Difference of two pixels read as `i16`.
pub open spec fn i16_diff(a: int, b: int) -> int {
    as_i16(a) - as_i16(b)
}

/// Squared difference of two pixels read as `i16`.
pub open spec fn sq_diff(a: int, b: int) -> int {
    i16_diff(a, b) * i16_diff(a, b)
}

/// `sq_diff` as a function value.
pub open spec fn sq_diff_fn() -> spec_fn(int, int) -> int {
    |a: int, b: int| sq_diff(a, b)
}

/// Absolute difference of two pixels.
pub open spec fn abs_diff(a: int, b: int) -> int {
    if a >= b {
        a - b
    } else {
        b - a
    }
}

/// Whether every pixel pair of the block has an `i16` difference in range.
pub open spec fn i16_diffs_fit(s1: PlaneSlice, s2: PlaneSlice, w: int, h: int) -> bool {
    forall|i: int, j: int|
        0 <= i < w && 0 <= j < h ==> i16::MIN <= #[trigger] i16_diff(px(s1, i, j), px(s2, i, j))
            <= i16::MAX
}

/// Smallest block dimension, in pixels, of the codec.
pub const MI_SIZE: usize = 4;

impl<'a> PlaneSlice<'a> {
    /// Pixel at column `add_x`, row `add_y` of the slice.
    pub fn p(&self, add_x: usize, add_y: usize) -> (v: u16)
        requires
            self.y + add_y < self.plane.data.len(),
            self.x + add_x < self.plane.data@[self.y + add_y].len(),
        ensures
            v == px(*self, add_x as int, add_y as int),
    {
        self.plane.data[self.y + add_y][self.x + add_x]
    }

    /// The slice whose origin lies `xo` columns right and `yo` rows down.
    pub fn subslice(&self, xo: usize, yo: usize) -> (s: PlaneSlice<'a>)
        requires
            self.x + xo <= usize::MAX,
            self.y + yo <= usize::MAX,
        ensures
            s.plane == self.plane,
            s.x == self.x + xo,
            s.y == self.y + yo,
    {
        PlaneSlice { plane: self.plane, x: self.x + xo, y: self.y + yo }
    }
}

fn pixel_as_i16(a: u16) -> (r: i32)
    ensures
        r == as_i16(a as int),
{
    if a <= 32767 {
        a as i32
    } else {
        a as i32 - 0x1_0000
    }
}

proof fn lemma_row_sum_step(
    s1: PlaneSlice,
    s2: PlaneSlice,
    j: int,
    i: int,
    f: spec_fn(int, int) -> int,
)
    requires
        i >= 0,
    ensures
        row_sum(s1, s2, j, i + 1, f) == row_sum(s1, s2, j, i, f) + f(px(s1, i, j), px(s2, i, j)),
{
}

proof fn lemma_row_sum_nonneg_mono(
    s1: PlaneSlice,
    s2: PlaneSlice,
    j: int,
    i: int,
    w: int,
    f: spec_fn(int, int) -> int,
)
    requires
        0 <= i <= w,
        forall|k: int| 0 <= k < w ==> #[trigger] f(px(s1, k, j), px(s2, k, j)) >= 0,
    ensures
        0 <= row_sum(s1, s2, j, i, f) <= row_sum(s1, s2, j, w, f),
    decreases w - i,
{
    if i < w {
        lemma_row_sum_nonneg_mono(s1, s2, j, i + 1, w, f);
        assert(f(px(s1, i, j), px(s2, i, j)) >= 0);
        lemma_row_sum_step(s1, s2, j, i, f);
        lemma_row_sum_nonneg(s1, s2, j, i, f);
    } else {
        lemma_row_sum_nonneg(s1, s2, j, w, f);
    }
}

proof fn lemma_row_sum_nonneg(
    s1: PlaneSlice,
    s2: PlaneSlice,
    j: int,
    w: int,
    f: spec_fn(int, int) -> int,
)
    requires
        forall|k: int| 0 <= k < w ==> #[trigger] f(px(s1, k, j), px(s2, k, j)) >= 0,
    ensures
        0 <= row_sum(s1, s2, j, w, f),
    decreases w,
{
    if w > 0 {
        lemma_row_sum_nonneg(s1, s2, j, w - 1, f);
        assert(f(px(s1, w - 1, j), px(s2, w - 1, j)) >= 0);
    }
}

proof fn lemma_block_sum_nonneg_mono(
    s1: PlaneSlice,
    s2: PlaneSlice,
    w: int,
    j: int,
    h: int,
    f: spec_fn(int, int) -> int,
)
    requires
        0 <= j <= h,
        forall|k: int, l: int| 0 <= k < w && 0 <= l < h ==> #[trigger] f(px(s1, k, l), px(s2, k, l)) >= 0,
    ensures
        0 <= block_sum(s1, s2, w, j, f) <= block_sum(s1, s2, w, h, f),
    decreases h,
{
    if h > 0 {
        if j < h {
            lemma_block_sum_nonneg_mono(s1, s2, w, j, h - 1, f);
        } else {
            lemma_block_sum_nonneg_mono(s1, s2, w, j - 1, h - 1, f);
        }
        assert forall|k: int| 0 <= k < w implies #[trigger] f(px(s1, k, h - 1), px(s2, k, h - 1)) >= 0 by {
            assert(f(px(s1, k, h - 1), px(s2, k, h - 1)) >= 0);
        }
        lemma_row_sum_nonneg(s1, s2, h - 1, w, f);
    }
}

/// Whether `sse_wxh` can measure the `w` by `h` blocks of `s1` and `s2`:
/// dimensions aligned to `MI_SIZE`, blocks inside their planes, pixel
/// differences in `i16`, each row's sum in `u32` and the whole in `u64`.
pub open spec fn sse_defined(s1: PlaneSlice, s2: PlaneSlice, w: int, h: int) -> bool {
    &&& w % (MI_SIZE as int) == 0
    &&& h % (MI_SIZE as int) == 0
    &&& covers(s1, w, h)
    &&& covers(s2, w, h)
    &&& i16_diffs_fit(s1, s2, w, h)
    &&& forall|j: int| 0 <= j < h ==> #[trigger] row_sum(s1, s2, j, w, sq_diff_fn()) <= u32::MAX
    &&& block_sum(s1, s2, w, h, sq_diff_fn()) <= u64::MAX
}

/// Sum of squared errors of the `w` by `h` blocks at the origins of `s1` and
/// `s2`, pixel differences taken as `i16`.
pub open spec fn block_sse(s1: PlaneSlice, s2: PlaneSlice, w: int, h: int) -> int {
    block_sum(s1, s2, w, h, sq_diff_fn())
}

/// Sum of squared errors of the `w` by `h` blocks at the origins of `src1`
/// and `src2`, pixel differences taken as `i16`.
pub fn sse_wxh(src1: &PlaneSlice, src2: &PlaneSlice, w: usize, h: usize) -> (sse: u64)
    requires
        sse_defined(*src1, *src2, w as int, h as int),
    ensures
        sse == block_sse(*src1, *src2, w as int, h as int),
{
    let ghost f = sq_diff_fn();
    let mut sse: u64 = 0;
    let mut j: usize = 0;
    proof {
        assert forall|k: int, l: int| 0 <= k < w && 0 <= l < h implies #[trigger] f(px(*src1, k, l), px(*src2, k, l)) >= 0 by {
            assert(i16_diff(px(*src1, k, l), px(*src2, k, l)) * i16_diff(px(*src1, k, l), px(*src2, k, l)) >= 0) by (nonlinear_arith);
        }
    }
    while j < h
        invariant
            j <= h,
            covers(*src1, w as int, h as int),
            covers(*src2, w as int, h as int),
            i16_diffs_fit(*src1, *src2, w as int, h as int),
            forall|l: int| 0 <= l < h ==> #[trigger] row_sum(*src1, *src2, l, w as int, f) <= u32::MAX,
            block_sum(*src1, *src2, w as int, h as int, f) <= u64::MAX,
            forall|k: int, l: int| 0 <= k < w && 0 <= l < h ==> #[trigger] f(px(*src1, k, l), px(*src2, k, l)) >= 0,
            f == sq_diff_fn(),
            sse == block_sum(*src1, *src2, w as int, j as int, f),
        decreases h - j,
    {
        let row1 = &src1.plane.data[src1.y + j];
        let row2 = &src2.plane.data[src2.y + j];
        assert(src1.x + w <= src1.plane.data@[src1.y + j].len());
        assert(src2.x + w <= src2.plane.data@[src2.y + j].len());
        let mut row_sse: u32 = 0;
        let mut i: usize = 0;
        proof {
            assert forall|k: int| 0 <= k < w implies #[trigger] f(px(*src1, k, j as int), px(*src2, k, j as int)) >= 0 by {
                assert(f(px(*src1, k, j as int), px(*src2, k, j as int)) >= 0);
            }
        }
        while i < w
            invariant
                i <= w,
                j < h,
                covers(*src1, w as int, h as int),
                covers(*src2, w as int, h as int),
                *row1 == src1.plane.data@[src1.y + j],
                *row2 == src2.plane.data@[src2.y + j],
                src1.x + w <= row1.len(),
                src2.x + w <= row2.len(),
                i16_diffs_fit(*src1, *src2, w as int, h as int),
                row_sum(*src1, *src2, j as int, w as int, f) <= u32::MAX,
                forall|k: int| 0 <= k < w ==> #[trigger] f(px(*src1, k, j as int), px(*src2, k, j as int)) >= 0,
                f == sq_diff_fn(),
                row_sse == row_sum(*src1, *src2, j as int, i as int, f),
            decreases w - i,
        {
            let a = row1[src1.x + i];
            let b = row2[src2.x + i];
            assert(a == px(*src1, i as int, j as int));
            assert(b == px(*src2, i as int, j as int));
            let ai = pixel_as_i16(a);
            let bi = pixel_as_i16(b);
            assert(i16::MIN <= i16_diff(a as int, b as int) <= i16::MAX);
            let c: i32 = ai - bi;
            assert(0 <= c * c <= 0x4000_0000) by (nonlinear_arith)
                requires
                    -32768 <= c <= 32767,
            ;
            let sq: u32 = (c * c) as u32;
            proof {
                lemma_row_sum_step(*src1, *src2, j as int, i as int, f);
                lemma_row_sum_nonneg_mono(*src1, *src2, j as int, (i + 1) as int, w as int, f);
            }
            row_sse = row_sse + sq;
            i = i + 1;
        }
        proof {
            lemma_block_sum_nonneg_mono(*src1, *src2, w as int, (j + 1) as int, h as int, f);
        }
        sse = sse + row_sse as u64;
        j = j + 1;
    }
    sse
}

/// `abs_diff` as a function value.
pub open spec fn abs_diff_fn() -> spec_fn(int, int) -> int {
    |a: int, b: int| abs_diff(a, b)
}

/// Sum of absolute differences of the `w_y` by `h_y` blocks at the origins of
/// `refr` and `pred`.
pub fn compute_fast_distortion(refr: PlaneSlice, pred: PlaneSlice, w_y: usize, h_y: usize) -> (sad: u64)
    requires
        covers(refr, w_y as int, h_y as int),
        covers(pred, w_y as int, h_y as int),
        block_sum(pred, refr, w_y as int, h_y as int, abs_diff_fn()) <= u32::MAX,
    ensures
        sad == block_sum(pred, refr, w_y as int, h_y as int, abs_diff_fn()),
{
    let ghost f = abs_diff_fn();
    let mut sad: u32 = 0;
    let mut r: usize = 0;
    while r < h_y
        invariant
            r <= h_y,
            covers(refr, w_y as int, h_y as int),
            covers(pred, w_y as int, h_y as int),
            f == abs_diff_fn(),
            forall|k: int, l: int| 0 <= k < w_y && 0 <= l < h_y ==> #[trigger] f(px(pred, k, l), px(refr, k, l)) >= 0,
            block_sum(pred, refr, w_y as int, h_y as int, f) <= u32::MAX,
            sad == block_sum(pred, refr, w_y as int, r as int, f),
        decreases h_y - r,
    {
        let row_org = &pred.plane.data[pred.y + r];
        let row_ref = &refr.plane.data[refr.y + r];
        assert(pred.x + w_y <= pred.plane.data@[pred.y + r].len());
        assert(refr.x + w_y <= refr.plane.data@[refr.y + r].len());
        proof {
            lemma_block_sum_nonneg_mono(pred, refr, w_y as int, (r + 1) as int, h_y as int, f);
            assert forall|k: int| 0 <= k < w_y implies #[trigger] f(px(pred, k, r as int), px(refr, k, r as int)) >= 0 by {
                assert(f(px(pred, k, r as int), px(refr, k, r as int)) >= 0);
            }
        }
        let ghost base = sad as int;
        let mut i: usize = 0;
        while i < w_y
            invariant
                i <= w_y,
                r < h_y,
                *row_org == pred.plane.data@[pred.y + r],
                *row_ref == refr.plane.data@[refr.y + r],
                pred.x + w_y <= row_org.len(),
                refr.x + w_y <= row_ref.len(),
                f == abs_diff_fn(),
                forall|k: int| 0 <= k < w_y ==> #[trigger] f(px(pred, k, r as int), px(refr, k, r as int)) >= 0,
                base == block_sum(pred, refr, w_y as int, r as int, f),
                base + row_sum(pred, refr, r as int, w_y as int, f) <= u32::MAX,
                sad == base + row_sum(pred, refr, r as int, i as int, f),
            decreases w_y - i,
        {
            let a = row_org[pred.x + i] as i32;
            let b = row_ref[refr.x + i] as i32;
            assert(a == px(pred, i as int, r as int));
            assert(b == px(refr, i as int, r as int));
            let d: u32 = if a >= b {
                (a - b) as u32
            } else {
                (b - a) as u32
            };
            proof {
                lemma_row_sum_step(pred, refr, r as int, i as int, f);
                lemma_row_sum_nonneg_mono(pred, refr, r as int, (i + 1) as int, w_y as int, f);
            }
            sad = sad + d;
            i = i + 1;
        }
        r = r + 1;
    }
    sad as u64
}

/// The pixel of the first slice, as a function value.
pub open spec fn first_fn() -> spec_fn(int, int) -> int {
    |a: int, b: int| a
}

/// The pixel of the second slice, as a function value.
pub open spec fn second_fn() -> spec_fn(int, int) -> int {
    |a: int, b: int| b
}

/// The square of the pixel of the first slice, as a function value.
pub open spec fn first_sq_fn() -> spec_fn(int, int) -> int {
    |a: int, b: int| a * a
}

/// The square of the pixel of the second slice, as a function value.
pub open spec fn second_sq_fn() -> spec_fn(int, int) -> int {
    |a: int, b: int| b * b
}

/// The product of the two pixels, as a function value.
pub open spec fn product_fn() -> spec_fn(int, int) -> int {
    |a: int, b: int| a * b
}

/// The integer statistics of two 8x8 blocks that CDEF's distortion metric
/// builds on: the scaled variance of each block and their sum of squared
/// errors.
pub struct BlockMoments {
    pub svar: i64,
    pub dvar: i64,
    pub sse: i64,
}

/// Variance term of a block: sum of squares less the rounded square of the sum
/// over the 64 pixels.
pub open spec fn variance_term(sum: int, sum_sq: int) -> int {
    sum_sq - (sum * sum + 32) / 64
}

/// Whether every pixel of the 8x8 block at the origin of `s` has a square
/// that fits in `i32`.
pub open spec fn squares_fit_i32(s: PlaneSlice) -> bool {
    forall|i: int, j: int| 0 <= i < 8 && 0 <= j < 8 ==> #[trigger] px(s, i, j) * px(s, i, j) <= i32::MAX
}

proof fn lemma_row_sum_bounded(
    s1: PlaneSlice,
    s2: PlaneSlice,
    j: int,
    w: int,
    f: spec_fn(int, int) -> int,
    hi: int,
)
    requires
        w >= 0,
        hi >= 0,
        forall|k: int| 0 <= k < w ==> 0 <= #[trigger] f(px(s1, k, j), px(s2, k, j)) <= hi,
    ensures
        0 <= row_sum(s1, s2, j, w, f) <= w * hi,
    decreases w,
{
    if w > 0 {
        lemma_row_sum_bounded(s1, s2, j, w - 1, f, hi);
        assert(0 <= f(px(s1, w - 1, j), px(s2, w - 1, j)) <= hi);
        assert((w - 1) * hi + hi == w * hi) by (nonlinear_arith);
    }
}

proof fn lemma_block_sum_bounded(
    s1: PlaneSlice,
    s2: PlaneSlice,
    w: int,
    h: int,
    f: spec_fn(int, int) -> int,
    hi: int,
)
    requires
        w >= 0,
        h >= 0,
        hi >= 0,
        forall|k: int, l: int| 0 <= k < w && 0 <= l < h ==> 0 <= #[trigger] f(px(s1, k, l), px(s2, k, l)) <= hi,
    ensures
        0 <= block_sum(s1, s2, w, h, f) <= h * (w * hi),
    decreases h,
{
    if h > 0 {
        lemma_block_sum_bounded(s1, s2, w, h - 1, f, hi);
        assert forall|k: int| 0 <= k < w implies 0 <= #[trigger] f(px(s1, k, h - 1), px(s2, k, h - 1)) <= hi by {
            assert(0 <= f(px(s1, k, h - 1), px(s2, k, h - 1)) <= hi);
        }
        lemma_row_sum_bounded(s1, s2, h - 1, w, f, hi);
        assert((h - 1) * (w * hi) + w * hi == h * (w * hi)) by (nonlinear_arith);
    }
}

proof fn lemma_pixel_bound(v: int)
    requires
        0 <= v,
        v * v <= i32::MAX,
    ensures
        v <= 46340,
{
    if v > 46340 {
        assert(v * v > i32::MAX) by (nonlinear_arith)
            requires
                v > 46340,
        ;
    }
}

/// Bounds of each term of the moments of two 8x8 blocks whose pixels have
/// squares in `i32`.
proof fn lemma_moment_terms_bounded(s1: PlaneSlice, s2: PlaneSlice)
    requires
        squares_fit_i32(s1),
        squares_fit_i32(s2),
    ensures
        forall|k: int, l: int|
            0 <= k < 8 && 0 <= l < 8 ==> 0 <= #[trigger] first_fn()(px(s1, k, l), px(s2, k, l)) <= 46340,
        forall|k: int, l: int|
            0 <= k < 8 && 0 <= l < 8 ==> 0 <= #[trigger] second_fn()(px(s1, k, l), px(s2, k, l)) <= 46340,
        forall|k: int, l: int|
            0 <= k < 8 && 0 <= l < 8 ==> 0 <= #[trigger] first_sq_fn()(px(s1, k, l), px(s2, k, l))
                <= i32::MAX,
        forall|k: int, l: int|
            0 <= k < 8 && 0 <= l < 8 ==> 0 <= #[trigger] second_sq_fn()(px(s1, k, l), px(s2, k, l))
                <= i32::MAX,
        forall|k: int, l: int|
            0 <= k < 8 && 0 <= l < 8 ==> 0 <= #[trigger] product_fn()(px(s1, k, l), px(s2, k, l))
                <= i32::MAX,
{
    assert forall|k: int, l: int| 0 <= k < 8 && 0 <= l < 8 implies 0 <= #[trigger] px(s1, k, l) <= 46340
        && 0 <= px(s2, k, l) <= 46340 && 0 <= px(s1, k, l) * px(s2, k, l) <= i32::MAX by {
        let a = px(s1, k, l);
        let b = px(s2, k, l);
        assert(a * a <= i32::MAX);
        assert(b * b <= i32::MAX);
        lemma_pixel_bound(a);
        lemma_pixel_bound(b);
        assert(0 <= a * b <= 46340 * 46340) by (nonlinear_arith)
            requires
                0 <= a <= 46340,
                0 <= b <= 46340,
        ;
    }
}

/// The integer statistics of the 8x8 blocks at the origins of `src1` and
/// `src2` (see `BlockMoments`).
pub fn cdef_dist_moments_8x8(src1: &PlaneSlice, src2: &PlaneSlice) -> (m: BlockMoments)
    requires
        covers(*src1, 8, 8),
        covers(*src2, 8, 8),
        squares_fit_i32(*src1),
        squares_fit_i32(*src2),
    ensures
        m.svar == variance_term(
            block_sum(*src1, *src2, 8, 8, first_fn()),
            block_sum(*src1, *src2, 8, 8, first_sq_fn()),
        ),
        m.dvar == variance_term(
            block_sum(*src1, *src2, 8, 8, second_fn()),
            block_sum(*src1, *src2, 8, 8, second_sq_fn()),
        ),
        m.sse == block_sum(*src1, *src2, 8, 8, second_sq_fn()) + block_sum(
            *src1,
            *src2,
            8,
            8,
            first_sq_fn(),
        ) - 2 * block_sum(*src1, *src2, 8, 8, product_fn()),
{
    let ghost s1 = *src1;
    let ghost s2 = *src2;
    proof {
        lemma_moment_terms_bounded(s1, s2);
        lemma_block_sum_bounded(s1, s2, 8, 8, first_fn(), 46340);
        lemma_block_sum_bounded(s1, s2, 8, 8, second_fn(), 46340);
        lemma_block_sum_bounded(s1, s2, 8, 8, first_sq_fn(), i32::MAX as int);
        lemma_block_sum_bounded(s1, s2, 8, 8, second_sq_fn(), i32::MAX as int);
        lemma_block_sum_bounded(s1, s2, 8, 8, product_fn(), i32::MAX as int);
    }
    let mut sum_s: i32 = 0;
    let mut sum_d: i32 = 0;
    let mut sum_s2: i64 = 0;
    let mut sum_d2: i64 = 0;
    let mut sum_sd: i64 = 0;
    let mut j: usize = 0;
    while j < 8
        invariant
            j <= 8,
            s1 == *src1,
            s2 == *src2,
            covers(s1, 8, 8),
            covers(s2, 8, 8),
            squares_fit_i32(s1),
            squares_fit_i32(s2),
            sum_s == block_sum(s1, s2, 8, j as int, first_fn()),
            sum_d == block_sum(s1, s2, 8, j as int, second_fn()),
            sum_s2 == block_sum(s1, s2, 8, j as int, first_sq_fn()),
            sum_d2 == block_sum(s1, s2, 8, j as int, second_sq_fn()),
            sum_sd == block_sum(s1, s2, 8, j as int, product_fn()),
        decreases 8 - j,
    {
        let row1 = &src1.plane.data[src1.y + j];
        let row2 = &src2.plane.data[src2.y + j];
        assert(src1.x + 8 <= src1.plane.data@[src1.y + j].len());
        assert(src2.x + 8 <= src2.plane.data@[src2.y + j].len());
        proof {
            lemma_moment_terms_bounded(s1, s2);
            lemma_block_sum_bounded(s1, s2, 8, j as int, first_fn(), 46340);
            lemma_block_sum_bounded(s1, s2, 8, j as int, second_fn(), 46340);
            lemma_block_sum_bounded(s1, s2, 8, j as int, first_sq_fn(), i32::MAX as int);
            lemma_block_sum_bounded(s1, s2, 8, j as int, second_sq_fn(), i32::MAX as int);
            lemma_block_sum_bounded(s1, s2, 8, j as int, product_fn(), i32::MAX as int);
        }
        let ghost b_s = sum_s as int;
        let ghost b_d = sum_d as int;
        let ghost b_s2 = sum_s2 as int;
        let ghost b_d2 = sum_d2 as int;
        let ghost b_sd = sum_sd as int;
        let mut i: usize = 0;
        while i < 8
            invariant
                i <= 8,
                j < 8,
                s1 == *src1,
                s2 == *src2,
                *row1 == s1.plane.data@[s1.y + j],
                *row2 == s2.plane.data@[s2.y + j],
                s1.x + 8 <= row1.len(),
                s2.x + 8 <= row2.len(),
                squares_fit_i32(s1),
                squares_fit_i32(s2),
                0 <= b_s <= j * (8 * 46340),
                0 <= b_d <= j * (8 * 46340),
                0 <= b_s2 <= j * (8 * i32::MAX),
                0 <= b_d2 <= j * (8 * i32::MAX),
                0 <= b_sd <= j * (8 * i32::MAX),
                b_s == block_sum(s1, s2, 8, j as int, first_fn()),
                b_d == block_sum(s1, s2, 8, j as int, second_fn()),
                b_s2 == block_sum(s1, s2, 8, j as int, first_sq_fn()),
                b_d2 == block_sum(s1, s2, 8, j as int, second_sq_fn()),
                b_sd == block_sum(s1, s2, 8, j as int, product_fn()),
                sum_s == b_s + row_sum(s1, s2, j as int, i as int, first_fn()),
                sum_d == b_d + row_sum(s1, s2, j as int, i as int, second_fn()),
                sum_s2 == b_s2 + row_sum(s1, s2, j as int, i as int, first_sq_fn()),
                sum_d2 == b_d2 + row_sum(s1, s2, j as int, i as int, second_sq_fn()),
                sum_sd == b_sd + row_sum(s1, s2, j as int, i as int, product_fn()),
            decreases 8 - i,
        {
            proof {
                lemma_moment_terms_bounded(s1, s2);
                lemma_row_sum_bounded(s1, s2, j as int, i as int, first_fn(), 46340);
                lemma_row_sum_bounded(s1, s2, j as int, i as int, second_fn(), 46340);
                lemma_row_sum_bounded(s1, s2, j as int, i as int, first_sq_fn(), i32::MAX as int);
                lemma_row_sum_bounded(s1, s2, j as int, i as int, second_sq_fn(), i32::MAX as int);
                lemma_row_sum_bounded(s1, s2, j as int, i as int, product_fn(), i32::MAX as int);
                lemma_row_sum_step(s1, s2, j as int, i as int, first_fn());
                lemma_row_sum_step(s1, s2, j as int, i as int, second_fn());
                lemma_row_sum_step(s1, s2, j as int, i as int, first_sq_fn());
                lemma_row_sum_step(s1, s2, j as int, i as int, second_sq_fn());
                lemma_row_sum_step(s1, s2, j as int, i as int, product_fn());
                assert(j * (8 * 46340) + i * 46340 + 46340 <= 64 * 46340) by (nonlinear_arith)
                    requires
                        0 <= j < 8,
                        0 <= i < 8,
                ;
                assert(j * (8 * i32::MAX) + i * i32::MAX + i32::MAX <= 64 * i32::MAX) by (nonlinear_arith)
                    requires
                        0 <= j < 8,
                        0 <= i < 8,
                ;
            }
            let s = row1[src1.x + i] as i32;
            let d = row2[src2.x + i] as i32;
            assert(s == px(s1, i as int, j as int));
            assert(d == px(s2, i as int, j as int));
            assert(0 <= first_fn()(px(s1, i as int, j as int), px(s2, i as int, j as int)) <= 46340);
            assert(0 <= second_fn()(px(s1, i as int, j as int), px(s2, i as int, j as int)) <= 46340);
            assert(0 <= first_sq_fn()(px(s1, i as int, j as int), px(s2, i as int, j as int)) <= i32::MAX);
            assert(0 <= second_sq_fn()(px(s1, i as int, j as int), px(s2, i as int, j as int)) <= i32::MAX);
            assert(0 <= product_fn()(px(s1, i as int, j as int), px(s2, i as int, j as int)) <= i32::MAX);
            sum_s += s;
            sum_d += d;
            sum_s2 += (s * s) as i64;
            sum_d2 += (d * d) as i64;
            sum_sd += (s * d) as i64;
            i = i + 1;
        }
        j = j + 1;
    }
    proof {
        assert(0 <= sum_s <= 64 * 46340);
        assert(0 <= sum_d <= 64 * 46340);
        assert(0 <= (sum_s as int) * (sum_s as int) <= (64 * 46340) * (64 * 46340)) by (nonlinear_arith)
            requires
                0 <= sum_s <= 64 * 46340,
        ;
        assert(0 <= (sum_d as int) * (sum_d as int) <= (64 * 46340) * (64 * 46340)) by (nonlinear_arith)
            requires
                0 <= sum_d <= 64 * 46340,
        ;
    }
    let ss: i64 = sum_s as i64 * sum_s as i64 + 32;
    let dd: i64 = sum_d as i64 * sum_d as i64 + 32;
    BlockMoments {
        svar: sum_s2 - ss / 64,
        dvar: sum_d2 - dd / 64,
        sse: sum_d2 + sum_s2 - 2 * sum_sd,
    }
}

proof fn lemma_row_sum_swap(s1: PlaneSlice, s2: PlaneSlice, j: int, w: int, f: spec_fn(int, int) -> int)
    requires
        forall|a: int, b: int| #[trigger] f(a, b) == f(b, a),
    ensures
        row_sum(s1, s2, j, w, f) == row_sum(s2, s1, j, w, f),
    decreases w,
{
    if w > 0 {
        lemma_row_sum_swap(s1, s2, j, w - 1, f);
        assert(f(px(s1, w - 1, j), px(s2, w - 1, j)) == f(px(s2, w - 1, j), px(s1, w - 1, j)));
    }
}

proof fn lemma_block_sum_swap(s1: PlaneSlice, s2: PlaneSlice, w: int, h: int, f: spec_fn(int, int) -> int)
    requires
        forall|a: int, b: int| #[trigger] f(a, b) == f(b, a),
    ensures
        block_sum(s1, s2, w, h, f) == block_sum(s2, s1, w, h, f),
    decreases h,
{
    if h > 0 {
        lemma_block_sum_swap(s1, s2, w, h - 1, f);
        lemma_row_sum_swap(s1, s2, h - 1, w, f);
    }
}

proof fn lemma_row_sum_zero_on_equal(s: PlaneSlice, j: int, w: int, f: spec_fn(int, int) -> int)
    requires
        forall|a: int| #[trigger] f(a, a) == 0,
    ensures
        row_sum(s, s, j, w, f) == 0,
    decreases w,
{
    if w > 0 {
        lemma_row_sum_zero_on_equal(s, j, w - 1, f);
        assert(f(px(s, w - 1, j), px(s, w - 1, j)) == 0);
    }
}

proof fn lemma_block_sum_zero_on_equal(s: PlaneSlice, w: int, h: int, f: spec_fn(int, int) -> int)
    requires
        forall|a: int| #[trigger] f(a, a) == 0,
    ensures
        block_sum(s, s, w, h, f) == 0,
    decreases h,
{
    if h > 0 {
        lemma_block_sum_zero_on_equal(s, w, h - 1, f);
        lemma_row_sum_zero_on_equal(s, h - 1, w, f);
    }
}

/// The sum of squared errors does not depend on which block is the source.
pub proof fn law_sse_symmetric(s1: PlaneSlice, s2: PlaneSlice, w: int, h: int)
    ensures
        block_sse(s1, s2, w, h) == block_sse(s2, s1, w, h),
{
    assert forall|a: int, b: int| #[trigger] sq_diff_fn()(a, b) == sq_diff_fn()(b, a) by {
        assert(i16_diff(b, a) == -i16_diff(a, b));
        assert(i16_diff(a, b) * i16_diff(a, b) == (-i16_diff(a, b)) * (-i16_diff(a, b))) by (nonlinear_arith);
    }
    lemma_block_sum_swap(s1, s2, w, h, sq_diff_fn());
}

/// A block has no squared error against itself.
pub proof fn law_sse_of_block_with_itself(s: PlaneSlice, w: int, h: int)
    ensures
        block_sse(s, s, w, h) == 0,
{
    assert forall|a: int| #[trigger] sq_diff_fn()(a, a) == 0 by {
        assert(i16_diff(a, a) == 0);
    }
    lemma_block_sum_zero_on_equal(s, w, h, sq_diff_fn());
}

/// The fast distortion does not depend on which block is the reference.
pub proof fn law_fast_distortion_symmetric(s1: PlaneSlice, s2: PlaneSlice, w: int, h: int)
    ensures
        block_sum(s1, s2, w, h, abs_diff_fn()) == block_sum(s2, s1, w, h, abs_diff_fn()),
        block_sum(s1, s1, w, h, abs_diff_fn()) == 0,
{
    assert forall|a: int, b: int| #[trigger] abs_diff_fn()(a, b) == abs_diff_fn()(b, a) by {}
    lemma_block_sum_swap(s1, s2, w, h, abs_diff_fn());
    assert forall|a: int| #[trigger] abs_diff_fn()(a, a) == 0 by {}
    lemma_block_sum_zero_on_equal(s1, w, h, abs_diff_fn());
}

/// Whether the `w` by `h` block at the origin of `s` lies in its plane.
pub fn covers_block(s: &PlaneSlice, w: usize, h: usize) -> (b: bool)
    ensures
        b == covers(*s, w as int, h as int),
{
    if s.y > s.plane.data.len() || h > s.plane.data.len() - s.y {
        return false;
    }
    let mut j: usize = 0;
    while j < h
        invariant
            j <= h,
            s.y + h <= s.plane.data.len(),
            forall|l: int| 0 <= l < j ==> s.x + w <= #[trigger] s.plane.data@[s.y + l].len(),
        decreases h - j,
    {
        let len = s.plane.data[s.y + j].len();
        if s.x > len || w > len - s.x {
            assert(!(s.x + w <= s.plane.data@[s.y + j].len()));
            return false;
        }
        j = j + 1;
    }
    true
}

proof fn lemma_sq_diff_nonneg()
    ensures
        forall|a: int, b: int| #[trigger] sq_diff_fn()(a, b) >= 0,
{
    assert forall|a: int, b: int| #[trigger] sq_diff_fn()(a, b) >= 0 by {
        let d = i16_diff(a, b);
        assert(d * d >= 0) by (nonlinear_arith);
    }
}

/// Whether `sse_wxh` can measure the `w` by `h` blocks of `s1` and `s2` (see
/// `sse_defined`).
pub fn sse_is_defined(s1: &PlaneSlice, s2: &PlaneSlice, w: usize, h: usize) -> (b: bool)
    ensures
        b == sse_defined(*s1, *s2, w as int, h as int),
{
    if w % MI_SIZE != 0 || h % MI_SIZE != 0 || !covers_block(s1, w, h) || !covers_block(s2, w, h) {
        return false;
    }
    let ghost f = sq_diff_fn();
    proof {
        lemma_sq_diff_nonneg();
    }
    let mut total: u128 = 0;
    let mut j: usize = 0;
    while j < h
        invariant
            j <= h,
            w % MI_SIZE == 0,
            h % MI_SIZE == 0,
            covers(*s1, w as int, h as int),
            covers(*s2, w as int, h as int),
            f == sq_diff_fn(),
            forall|a: int, b: int| #[trigger] f(a, b) >= 0,
            forall|i: int, l: int|
                0 <= i < w && 0 <= l < j ==> i16::MIN <= #[trigger] i16_diff(px(*s1, i, l), px(*s2, i, l))
                    <= i16::MAX,
            forall|l: int| 0 <= l < j ==> #[trigger] row_sum(*s1, *s2, l, w as int, f) <= u32::MAX,
            total == block_sum(*s1, *s2, w as int, j as int, f),
            total <= j * 0xffff_ffff,
        decreases h - j,
    {
        let row1 = &s1.plane.data[s1.y + j];
        let row2 = &s2.plane.data[s2.y + j];
        assert(s1.x + w <= s1.plane.data@[s1.y + j].len());
        assert(s2.x + w <= s2.plane.data@[s2.y + j].len());
        let mut row: u64 = 0;
        let mut i: usize = 0;
        while i < w
            invariant
                i <= w,
                j < h,
                *row1 == s1.plane.data@[s1.y + j],
                *row2 == s2.plane.data@[s2.y + j],
                s1.x + w <= row1.len(),
                s2.x + w <= row2.len(),
                f == sq_diff_fn(),
                forall|a: int, b: int| #[trigger] f(a, b) >= 0,
                forall|k: int| 0 <= k < i ==> i16::MIN <= #[trigger] i16_diff(px(*s1, k, j as int), px(*s2, k, j as int))
                    <= i16::MAX,
                row == row_sum(*s1, *s2, j as int, i as int, f),
                row <= u32::MAX,
            decreases w - i,
        {
            let a = row1[s1.x + i];
            let b = row2[s2.x + i];
            assert(a == px(*s1, i as int, j as int));
            assert(b == px(*s2, i as int, j as int));
            let c: i32 = pixel_as_i16(a) - pixel_as_i16(b);
            if c < -32768 || c > 32767 {
                assert(!(i16::MIN <= i16_diff(px(*s1, i as int, j as int), px(*s2, i as int, j as int)) <= i16::MAX));
                return false;
            }
            assert(0 <= c * c <= 0x4000_0000) by (nonlinear_arith)
                requires
                    -32768 <= c <= 32767,
            ;
            proof {
                lemma_row_sum_step(*s1, *s2, j as int, i as int, f);
            }
            row = row + (c * c) as u64;
            if row > 0xffff_ffff {
                proof {
                    lemma_row_sum_nonneg_mono(*s1, *s2, j as int, (i + 1) as int, w as int, f);
                }
                assert(row_sum(*s1, *s2, j as int, w as int, f) > u32::MAX);
                return false;
            }
            i = i + 1;
        }
        total = total + row as u128;
        j = j + 1;
    }
    total <= 0xffff_ffff_ffff_ffff
}

/// Whether `cdef_dist_moments_8x8` can measure the 8x8 blocks of `s1` and
/// `s2`: both in their planes, with every pixel's square in `i32`.
pub fn moments_are_defined(s1: &PlaneSlice, s2: &PlaneSlice) -> (b: bool)
    ensures
        b == (covers(*s1, 8, 8) && covers(*s2, 8, 8) && squares_fit_i32(*s1) && squares_fit_i32(*s2)),
{
    if !covers_block(s1, 8, 8) || !covers_block(s2, 8, 8) {
        return false;
    }
    squares_fit(s1) && squares_fit(s2)
}

fn squares_fit(s: &PlaneSlice) -> (b: bool)
    requires
        covers(*s, 8, 8),
    ensures
        b == squares_fit_i32(*s),
{
    let mut j: usize = 0;
    while j < 8
        invariant
            j <= 8,
            covers(*s, 8, 8),
            forall|i: int, l: int| 0 <= i < 8 && 0 <= l < j ==> #[trigger] px(*s, i, l) * px(*s, i, l) <= i32::MAX,
        decreases 8 - j,
    {
        assert(s.x + 8 <= s.plane.data@[s.y + j].len());
        let mut i: usize = 0;
        while i < 8
            invariant
                i <= 8,
                j < 8,
                covers(*s, 8, 8),
                s.x + 8 <= s.plane.data@[s.y + j].len(),
                forall|k: int, l: int| 0 <= k < 8 && 0 <= l < j ==> #[trigger] px(*s, k, l) * px(*s, k, l) <= i32::MAX,
                forall|k: int| 0 <= k < i ==> #[trigger] px(*s, k, j as int) * px(*s, k, j as int) <= i32::MAX,
            decreases 8 - i,
        {
            let v = s.plane.data[s.y + j][s.x + i] as u64;
            assert(v == px(*s, i as int, j as int));
            assert(v * v <= 0xffff_ffff) by (nonlinear_arith)
                requires
                    v <= 0xffff,
            ;
            if v * v > 0x7fff_ffff {
                return false;
            }
            i = i + 1;
        }
        j = j + 1;
    }
    true
}

/// Whether every pixel of the `w` by `h` blocks of `s1` and `s2` is below
/// `1 << 15`, so that reading it as `i16` keeps its value.
pub open spec fn pixels_below_i16(s1: PlaneSlice, s2: PlaneSlice, w: int, h: int) -> bool {
    forall|i: int, j: int|
        0 <= i < w && 0 <= j < h ==> #[trigger] px(s1, i, j) < 0x8000 && px(s2, i, j) < 0x8000
            && px(s1, i, j) >= 0 && px(s2, i, j) >= 0
}

proof fn lemma_square_against_abs(d: int)
    ensures
        d * d >= (if d >= 0 { d } else { -d }),
        (d * d == (if d >= 0 { d } else { -d })) <==> (-1 <= d <= 1),
        (d * d == 0) <==> (d == 0),
{
    if d >= 2 {
        assert(d * d >= 2 * d) by (nonlinear_arith)
            requires
                d >= 2,
        ;
    } else if d <= -2 {
        assert(d * d >= -2 * d) by (nonlinear_arith)
            requires
                d <= -2,
        ;
    } else if d == 1 {
        assert(d * d == 1);
    } else if d == -1 {
        assert(d * d == 1);
    } else {
        assert(d * d == 0);
    }
}

proof fn lemma_row_sse_against_sad(s1: PlaneSlice, s2: PlaneSlice, j: int, w: int, h: int)
    requires
        0 <= j < h,
        0 <= w,
        pixels_below_i16(s1, s2, w, h),
    ensures
        row_sum(s1, s2, j, w, sq_diff_fn()) >= row_sum(s1, s2, j, w, abs_diff_fn()) >= 0,
        (row_sum(s1, s2, j, w, sq_diff_fn()) == row_sum(s1, s2, j, w, abs_diff_fn())) <==> (forall|
            i: int,
        | 0 <= i < w ==> -1 <= #[trigger] px(s1, i, j) - px(s2, i, j) <= 1),
        (row_sum(s1, s2, j, w, sq_diff_fn()) == 0) <==> (forall|i: int|
            0 <= i < w ==> #[trigger] px(s1, i, j) == px(s2, i, j)),
        (row_sum(s1, s2, j, w, abs_diff_fn()) == 0) <==> (forall|i: int|
            0 <= i < w ==> #[trigger] px(s1, i, j) == px(s2, i, j)),
    decreases w,
{
    if w > 0 {
        lemma_row_sse_against_sad(s1, s2, j, w - 1, h);
        let a = px(s1, w - 1, j);
        let b = px(s2, w - 1, j);
        assert(a < 0x8000 && b < 0x8000 && a >= 0 && b >= 0);
        assert(i16_diff(a, b) == a - b);
        lemma_square_against_abs(a - b);
        assert(sq_diff_fn()(a, b) == (a - b) * (a - b));
        assert(abs_diff_fn()(a, b) == if a - b >= 0 { a - b } else { -(a - b) });
        if forall|i: int| 0 <= i < w ==> -1 <= #[trigger] px(s1, i, j) - px(s2, i, j) <= 1 {
            assert(-1 <= px(s1, w - 1, j) - px(s2, w - 1, j) <= 1);
        }
        if forall|i: int| 0 <= i < w ==> #[trigger] px(s1, i, j) == px(s2, i, j) {
            assert(px(s1, w - 1, j) == px(s2, w - 1, j));
        }
    }
}

proof fn lemma_block_sse_against_sad(s1: PlaneSlice, s2: PlaneSlice, w: int, h: int, n: int)
    requires
        0 <= n <= h,
        0 <= w,
        pixels_below_i16(s1, s2, w, h),
    ensures
        block_sse(s1, s2, w, n) >= block_sum(s1, s2, w, n, abs_diff_fn()) >= 0,
        (block_sse(s1, s2, w, n) == block_sum(s1, s2, w, n, abs_diff_fn())) <==> (forall|
            i: int,
            j: int,
        | 0 <= i < w && 0 <= j < n ==> -1 <= #[trigger] px(s1, i, j) - px(s2, i, j) <= 1),
        (block_sse(s1, s2, w, n) == 0) <==> (forall|i: int, j: int|
            0 <= i < w && 0 <= j < n ==> #[trigger] px(s1, i, j) == px(s2, i, j)),
        (block_sum(s1, s2, w, n, abs_diff_fn()) == 0) <==> (forall|i: int, j: int|
            0 <= i < w && 0 <= j < n ==> #[trigger] px(s1, i, j) == px(s2, i, j)),
    decreases n,
{
    if n > 0 {
        lemma_block_sse_against_sad(s1, s2, w, h, n - 1);
        lemma_row_sse_against_sad(s1, s2, n - 1, w, h);
        if forall|i: int, j: int| 0 <= i < w && 0 <= j < n ==> -1 <= #[trigger] px(s1, i, j) - px(s2, i, j) <= 1 {
            assert forall|i: int| 0 <= i < w implies -1 <= #[trigger] px(s1, i, n - 1) - px(s2, i, n - 1) <= 1 by {}
        }
        if forall|i: int, j: int| 0 <= i < w && 0 <= j < n ==> #[trigger] px(s1, i, j) == px(s2, i, j) {
            assert forall|i: int| 0 <= i < w implies #[trigger] px(s1, i, n - 1) == px(s2, i, n - 1) by {}
        }
    }
}

/// On pixels below `1 << 15` the sum of squared errors of two blocks is at
/// least their fast distortion (sum of absolute differences), and equal to it
/// exactly when every pixel difference is -1, 0 or 1; each is zero exactly
/// when the blocks are equal.
pub proof fn law_sse_dominates_fast_distortion(s1: PlaneSlice, s2: PlaneSlice, w: int, h: int)
    requires
        0 <= w,
        0 <= h,
        pixels_below_i16(s1, s2, w, h),
    ensures
        block_sse(s1, s2, w, h) >= block_sum(s2, s1, w, h, abs_diff_fn()),
        (block_sse(s1, s2, w, h) == block_sum(s2, s1, w, h, abs_diff_fn())) <==> (forall|
            i: int,
            j: int,
        | 0 <= i < w && 0 <= j < h ==> -1 <= #[trigger] px(s1, i, j) - px(s2, i, j) <= 1),
        (block_sse(s1, s2, w, h) == 0) <==> (forall|i: int, j: int|
            0 <= i < w && 0 <= j < h ==> #[trigger] px(s1, i, j) == px(s2, i, j)),
        (block_sum(s2, s1, w, h, abs_diff_fn()) == 0) <==> (forall|i: int, j: int|
            0 <= i < w && 0 <= j < h ==> #[trigger] px(s1, i, j) == px(s2, i, j)),
{
    lemma_block_sse_against_sad(s1, s2, w, h, h);
    law_fast_distortion_symmetric(s1, s2, w, h);
}

} // verus!
