use vstd::prelude::*;
use vstd::arithmetic::power2::pow2;
use crate::partition::{
    TxSize, BlockSize, PartitionType, BlockOffset, block_size_index, block_width, tx_width, tx_height,
    spec_split_subsize, split_subsize, SuperBlockOffset,
};
use crate::predict::{CFLParams, default_cfl_params};
use crate::plane::{
    Plane, PlaneSlice, MI_SIZE, sse_defined, sse_is_defined, block_sse, sse_wxh, covers, block_sum, abs_diff_fn,
    compute_fast_distortion, law_sse_of_block_with_itself,
};

verus! {

/// How a candidate's distortion is measured: estimated from the trained
/// tables, or measured on the reconstruction.
#[derive(Clone, Copy, Debug, PartialEq, Eq, Structural)]
pub enum RDOType {
    Fast,
    Accurate,
}

/// The distortion measure of a speed setting: measured at speed 0 only.
pub fn rdo_type_for_speed(speed: usize) -> (t: RDOType)
    ensures
        t == (if speed == 0 {
            RDOType::Accurate
        } else {
            RDOType::Fast
        }),
{
    if speed == 0 {
        RDOType::Accurate
    } else {
        RDOType::Fast
    }
}

/// Transform size that the largest-transform mode gives a block.
pub open spec fn spec_largest_tx_size(bsize: BlockSize) -> TxSize {
    match bsize {
        BlockSize::BLOCK_4X4 => TxSize::TX_4X4,
        BlockSize::BLOCK_8X8 => TxSize::TX_8X8,
        BlockSize::BLOCK_16X16 => TxSize::TX_16X16,
        _ => TxSize::TX_32X32,
    }
}

/// The transform size of a block under the largest-transform mode.
pub fn largest_tx_size(bsize: BlockSize) -> (ts: TxSize)
    ensures
        ts == spec_largest_tx_size(bsize),
{
    match bsize {
        BlockSize::BLOCK_4X4 => TxSize::TX_4X4,
        BlockSize::BLOCK_8X8 => TxSize::TX_8X8,
        BlockSize::BLOCK_16X16 => TxSize::TX_16X16,
        _ => TxSize::TX_32X32,
    }
}

/// Transform size of the chroma planes of a 4:2:0 block, used when searching
/// chroma-from-luma parameters.
pub open spec fn spec_cfl_uv_tx_size(bsize: BlockSize) -> TxSize {
    match bsize {
        BlockSize::BLOCK_4X4 | BlockSize::BLOCK_8X8 => TxSize::TX_4X4,
        BlockSize::BLOCK_16X16 => TxSize::TX_8X8,
        BlockSize::BLOCK_32X32 => TxSize::TX_16X16,
        _ => TxSize::TX_32X32,
    }
}

/// The chroma transform size of a 4:2:0 block for chroma-from-luma search.
pub fn cfl_uv_tx_size(bsize: BlockSize) -> (ts: TxSize)
    ensures
        ts == spec_cfl_uv_tx_size(bsize),
{
    match bsize {
        BlockSize::BLOCK_4X4 | BlockSize::BLOCK_8X8 => TxSize::TX_4X4,
        BlockSize::BLOCK_16X16 => TxSize::TX_8X8,
        BlockSize::BLOCK_32X32 => TxSize::TX_16X16,
        _ => TxSize::TX_32X32,
    }
}

/// Whether a partition is tried for a block: no split for blocks above
/// 32x32, and a split only where the block has quarters. The search tries
/// only `PARTITION_NONE` and `PARTITION_SPLIT`.
pub open spec fn spec_partition_is_candidate(partition: PartitionType, bsize: BlockSize) -> bool {
    match partition {
        PartitionType::PARTITION_NONE => block_size_index(bsize) <= block_size_index(
            BlockSize::BLOCK_32X32,
        ),
        _ => spec_split_subsize(bsize) != BlockSize::BLOCK_INVALID,
    }
}

/// Whether the partition search tries `partition` on a block of size `bsize`.
pub fn partition_is_candidate(partition: PartitionType, bsize: BlockSize) -> (b: bool)
    requires
        partition == PartitionType::PARTITION_NONE || partition == PartitionType::PARTITION_SPLIT,
    ensures
        b == spec_partition_is_candidate(partition, bsize),
{
    match partition {
        PartitionType::PARTITION_NONE => bsize.index() <= BlockSize::BLOCK_32X32.index(),
        _ => split_subsize(bsize) != BlockSize::BLOCK_INVALID,
    }
}

/// Offsets of the four quarters of a block split in four, in coding order:
/// top left, top right, bottom left, bottom right.
pub fn split_offsets(bsize: BlockSize, bo: &BlockOffset) -> (offs: [BlockOffset; 4])
    requires
        bsize != BlockSize::BLOCK_INVALID,
        bo.x + block_width(bsize) / 8 <= usize::MAX,
        bo.y + block_width(bsize) / 8 <= usize::MAX,
    ensures
        ({
            let hbs = block_width(bsize) / 8;
            &&& offs@[0] == BlockOffset { x: bo.x, y: bo.y }
            &&& offs@[1] == BlockOffset { x: (bo.x + hbs) as usize, y: bo.y }
            &&& offs@[2] == BlockOffset { x: bo.x, y: (bo.y + hbs) as usize }
            &&& offs@[3] == BlockOffset { x: (bo.x + hbs) as usize, y: (bo.y + hbs) as usize }
        }),
{
    let bs = bsize.width_mi();
    let hbs = bs / 2;
    [
        BlockOffset { x: bo.x, y: bo.y },
        BlockOffset { x: bo.x + hbs, y: bo.y },
        BlockOffset { x: bo.x, y: bo.y + hbs },
        BlockOffset { x: bo.x + hbs, y: bo.y + hbs },
    ]
}

/// Chroma block dimensions for the distortion of a luma block of `w_y` by
/// `h_y` under decimation `xdec`, `ydec`: the decimated size rounded down to
/// `MI_SIZE`, replaced by `MI_SIZE` square when it vanishes on a block that
/// carries chroma.
pub open spec fn spec_chroma_dims(
    w_y: int,
    h_y: int,
    xdec: int,
    ydec: int,
    is_chroma_block: bool,
) -> (int, int) {
    let w = w_y / (pow2(xdec as nat) as int);
    let h = h_y / (pow2(ydec as nat) as int);
    let w_uv = w - w % (MI_SIZE as int);
    let h_uv = h - h % (MI_SIZE as int);
    if (w_uv == 0 || h_uv == 0) && is_chroma_block {
        (MI_SIZE as int, MI_SIZE as int)
    } else {
        (w_uv, h_uv)
    }
}

proof fn lemma_clear_low_two_bits(v: usize)
    ensures
        v & !3usize == v - v % 4,
{
    assert(v & !3usize == v - v % 4) by (bit_vector);
}

/// The chroma block dimensions for measuring the distortion of a luma block
/// (see `spec_chroma_dims`).
pub fn chroma_dims(w_y: usize, h_y: usize, xdec: usize, ydec: usize, is_chroma_block: bool) -> (d: (
    usize,
    usize,
))
    requires
        xdec < usize::BITS,
        ydec < usize::BITS,
    ensures
        (d.0 as int, d.1 as int) == spec_chroma_dims(
            w_y as int,
            h_y as int,
            xdec as int,
            ydec as int,
            is_chroma_block,
        ),
{
    let mask = !(MI_SIZE - 1);
    let wd = w_y >> xdec;
    let hd = h_y >> ydec;
    proof {
        vstd::bits::lemma_usize_shr_is_div(w_y, xdec);
        vstd::bits::lemma_usize_shr_is_div(h_y, ydec);
        lemma_clear_low_two_bits(wd);
        lemma_clear_low_two_bits(hd);
    }
    let mut w_uv = wd & mask;
    let mut h_uv = hd & mask;
    if (w_uv == 0 || h_uv == 0) && is_chroma_block {
        w_uv = MI_SIZE;
        h_uv = MI_SIZE;
    }
    (w_uv, h_uv)
}

/// The luma and chroma planes of a block, in the input and in the
/// reconstruction: three slices each (luma, then the two chroma planes).
pub open spec fn three_planes(input: Seq<PlaneSlice>, rec: Seq<PlaneSlice>) -> bool {
    input.len() == 3 && rec.len() == 3
}

/// Whether the chroma planes of a block are measured: unless only luma is
/// asked for, whenever both chroma dimensions are positive.
pub open spec fn chroma_measured(
    w_y: int,
    h_y: int,
    xdec: int,
    ydec: int,
    is_chroma_block: bool,
    luma_only: bool,
) -> bool {
    let (w_uv, h_uv) = spec_chroma_dims(w_y, h_y, xdec, ydec, is_chroma_block);
    !luma_only && w_uv > 0 && h_uv > 0
}

/// Chroma distortion of a block: the sums of squared errors of both chroma
/// planes where chroma is measured, zero otherwise.
pub open spec fn spec_chroma_distortion(
    input: Seq<PlaneSlice>,
    rec: Seq<PlaneSlice>,
    w_y: int,
    h_y: int,
    xdec: int,
    ydec: int,
    is_chroma_block: bool,
    luma_only: bool,
) -> int {
    let (w_uv, h_uv) = spec_chroma_dims(w_y, h_y, xdec, ydec, is_chroma_block);
    if chroma_measured(w_y, h_y, xdec, ydec, is_chroma_block, luma_only) {
        block_sse(input[1], rec[1], w_uv, h_uv) + block_sse(input[2], rec[2], w_uv, h_uv)
    } else {
        0
    }
}

/// Whether `chroma_distortion` can measure the block: both chroma plane pairs
/// can be measured where chroma is, and their sum fits in `u64`.
pub open spec fn chroma_distortion_defined(
    input: Seq<PlaneSlice>,
    rec: Seq<PlaneSlice>,
    w_y: int,
    h_y: int,
    xdec: int,
    ydec: int,
    is_chroma_block: bool,
    luma_only: bool,
) -> bool {
    let (w_uv, h_uv) = spec_chroma_dims(w_y, h_y, xdec, ydec, is_chroma_block);
    &&& chroma_measured(w_y, h_y, xdec, ydec, is_chroma_block, luma_only) ==> {
        &&& sse_defined(input[1], rec[1], w_uv, h_uv)
        &&& sse_defined(input[2], rec[2], w_uv, h_uv)
    }
    &&& spec_chroma_distortion(input, rec, w_y, h_y, xdec, ydec, is_chroma_block, luma_only)
        <= u64::MAX
}

/// Distortion of a block for PSNR tuning: the luma sum of squared errors plus
/// the chroma distortion.
pub open spec fn spec_psnr_distortion(
    input: Seq<PlaneSlice>,
    rec: Seq<PlaneSlice>,
    w_y: int,
    h_y: int,
    xdec: int,
    ydec: int,
    is_chroma_block: bool,
    luma_only: bool,
) -> int {
    block_sse(input[0], rec[0], w_y, h_y) + spec_chroma_distortion(
        input,
        rec,
        w_y,
        h_y,
        xdec,
        ydec,
        is_chroma_block,
        luma_only,
    )
}

/// Whether `psnr_distortion` can measure the block.
pub open spec fn psnr_distortion_defined(
    input: Seq<PlaneSlice>,
    rec: Seq<PlaneSlice>,
    w_y: int,
    h_y: int,
    xdec: int,
    ydec: int,
    is_chroma_block: bool,
    luma_only: bool,
) -> bool {
    &&& sse_defined(input[0], rec[0], w_y, h_y)
    &&& chroma_distortion_defined(input, rec, w_y, h_y, xdec, ydec, is_chroma_block, luma_only)
    &&& spec_psnr_distortion(input, rec, w_y, h_y, xdec, ydec, is_chroma_block, luma_only)
        <= u64::MAX
}

/// The chroma part of a coded block's distortion (see
/// `spec_chroma_distortion`).
pub fn chroma_distortion(
    input: &Vec<PlaneSlice>,
    rec: &Vec<PlaneSlice>,
    w_y: usize,
    h_y: usize,
    xdec: usize,
    ydec: usize,
    is_chroma_block: bool,
    luma_only: bool,
) -> (d: u64)
    requires
        three_planes(input@, rec@),
        xdec < usize::BITS,
        ydec < usize::BITS,
        chroma_distortion_defined(
            input@,
            rec@,
            w_y as int,
            h_y as int,
            xdec as int,
            ydec as int,
            is_chroma_block,
            luma_only,
        ),
    ensures
        d == spec_chroma_distortion(
            input@,
            rec@,
            w_y as int,
            h_y as int,
            xdec as int,
            ydec as int,
            is_chroma_block,
            luma_only,
        ),
        chroma_measured(
            w_y as int,
            h_y as int,
            xdec as int,
            ydec as int,
            is_chroma_block,
            luma_only,
        ) ==> d == block_sse(
            input@[1],
            rec@[1],
            spec_chroma_dims(w_y as int, h_y as int, xdec as int, ydec as int, is_chroma_block).0,
            spec_chroma_dims(w_y as int, h_y as int, xdec as int, ydec as int, is_chroma_block).1,
        ) + block_sse(
            input@[2],
            rec@[2],
            spec_chroma_dims(w_y as int, h_y as int, xdec as int, ydec as int, is_chroma_block).0,
            spec_chroma_dims(w_y as int, h_y as int, xdec as int, ydec as int, is_chroma_block).1,
        ),
        !chroma_measured(
            w_y as int,
            h_y as int,
            xdec as int,
            ydec as int,
            is_chroma_block,
            luma_only,
        ) ==> d == 0,
{
    let mut distortion: u64 = 0;
    if !luma_only {
        let (w_uv, h_uv) = chroma_dims(w_y, h_y, xdec, ydec, is_chroma_block);
        // chroma is added only where it is available
        if w_uv > 0 && h_uv > 0 {
            let d1 = sse_wxh(&input[1], &rec[1], w_uv, h_uv);
            let d2 = sse_wxh(&input[2], &rec[2], w_uv, h_uv);
            distortion = d1 + d2;
        }
    }
    distortion
}

/// The distortion of a coded block under PSNR tuning (see
/// `spec_psnr_distortion`).
pub fn psnr_distortion(
    input: &Vec<PlaneSlice>,
    rec: &Vec<PlaneSlice>,
    w_y: usize,
    h_y: usize,
    xdec: usize,
    ydec: usize,
    is_chroma_block: bool,
    luma_only: bool,
) -> (d: u64)
    requires
        three_planes(input@, rec@),
        xdec < usize::BITS,
        ydec < usize::BITS,
        psnr_distortion_defined(
            input@,
            rec@,
            w_y as int,
            h_y as int,
            xdec as int,
            ydec as int,
            is_chroma_block,
            luma_only,
        ),
    ensures
        d == spec_psnr_distortion(
            input@,
            rec@,
            w_y as int,
            h_y as int,
            xdec as int,
            ydec as int,
            is_chroma_block,
            luma_only,
        ),
{
    let luma = sse_wxh(&input[0], &rec[0], w_y, h_y);
    let chroma = chroma_distortion(input, rec, w_y, h_y, xdec, ydec, is_chroma_block, luma_only);
    luma + chroma
}

/// Whether `(u, v)` is a pair of chroma-from-luma scaling factors that the
/// search tries: each in `-16..=16`, not both zero.
pub open spec fn cfl_candidate(u: int, v: int) -> bool {
    &&& -16 <= u <= 16
    &&& -16 <= v <= 16
    &&& !(u == 0 && v == 0)
}

/// Whether the search tries `(a, b)` before `(u, v)`: by `u` first, then `v`.
pub open spec fn cfl_before(a: int, b: int, u: int, v: int) -> bool {
    a < u || (a == u && b < v)
}

/// Cost of the scaling pair `(u, v)`: the error of the first chroma plane
/// under `u` plus that of the second under `v`.
pub open spec fn cfl_cost(alpha_sse: [[u64; 33]; 2], u: int, v: int) -> int {
    alpha_sse@[0]@[u + 16] + alpha_sse@[1]@[v + 16]
}

/// Whether the cost of every candidate pair fits in `u64`.
pub open spec fn cfl_costs_fit(alpha_sse: [[u64; 33]; 2]) -> bool {
    forall|u: int, v: int| cfl_candidate(u, v) ==> #[trigger] cfl_cost(alpha_sse, u, v) <= u64::MAX
}

/// The pair of chroma-from-luma scaling factors of least cost, the first in
/// search order among equals; `None` when no pair costs less than `u64::MAX`.
pub fn best_cfl_alphas(alpha_sse: &[[u64; 33]; 2]) -> (best: Option<(i16, i16)>)
    requires
        cfl_costs_fit(*alpha_sse),
    ensures
        best is None ==> forall|u: int, v: int|
            cfl_candidate(u, v) ==> #[trigger] cfl_cost(*alpha_sse, u, v) == u64::MAX,
        best matches Some((bu, bv)) ==> {
            &&& cfl_candidate(bu as int, bv as int)
            &&& cfl_cost(*alpha_sse, bu as int, bv as int) < u64::MAX
            &&& forall|u: int, v: int|
                cfl_candidate(u, v) ==> cfl_cost(*alpha_sse, bu as int, bv as int)
                    <= #[trigger] cfl_cost(*alpha_sse, u, v)
            &&& forall|u: int, v: int|
                cfl_candidate(u, v) && cfl_before(u, v, bu as int, bv as int) ==> cfl_cost(
                    *alpha_sse,
                    bu as int,
                    bv as int,
                ) < #[trigger] cfl_cost(*alpha_sse, u, v)
        },
{
    let t = *alpha_sse;
    let mut best: Option<(i16, i16)> = None;
    let mut best_rd: u64 = u64::MAX;
    let mut alpha_u: i16 = -16;
    while alpha_u < 17
        invariant
            -16 <= alpha_u <= 17,
            t == *alpha_sse,
            cfl_costs_fit(t),
            best is None ==> best_rd == u64::MAX,
            forall|u: int, v: int|
                cfl_candidate(u, v) && u < alpha_u ==> best_rd <= #[trigger] cfl_cost(t, u, v),
            best matches Some((bu, bv)) ==> {
                &&& cfl_candidate(bu as int, bv as int)
                &&& bu < alpha_u
                &&& cfl_cost(t, bu as int, bv as int) == best_rd
                &&& best_rd < u64::MAX
                &&& forall|u: int, v: int|
                    cfl_candidate(u, v) && cfl_before(u, v, bu as int, bv as int) ==> best_rd
                        < #[trigger] cfl_cost(t, u, v)
            },
        decreases 17 - alpha_u,
    {
        let mut alpha_v: i16 = -16;
        while alpha_v < 17
            invariant
                -16 <= alpha_u < 17,
                -16 <= alpha_v <= 17,
                t == *alpha_sse,
                cfl_costs_fit(t),
                best is None ==> best_rd == u64::MAX,
                forall|u: int, v: int|
                    cfl_candidate(u, v) && cfl_before(u, v, alpha_u as int, alpha_v as int)
                        ==> best_rd <= #[trigger] cfl_cost(t, u, v),
                best matches Some((bu, bv)) ==> {
                    &&& cfl_candidate(bu as int, bv as int)
                    &&& cfl_before(bu as int, bv as int, alpha_u as int, alpha_v as int)
                    &&& cfl_cost(t, bu as int, bv as int) == best_rd
                    &&& best_rd < u64::MAX
                    &&& forall|u: int, v: int|
                        cfl_candidate(u, v) && cfl_before(u, v, bu as int, bv as int) ==> best_rd
                            < #[trigger] cfl_cost(t, u, v)
                },
            decreases 17 - alpha_v,
        {
            if !(alpha_u == 0 && alpha_v == 0) {
                assert(cfl_candidate(alpha_u as int, alpha_v as int));
                assert(cfl_cost(t, alpha_u as int, alpha_v as int) <= u64::MAX);
                let rd = t[0][(alpha_u + 16) as usize] + t[1][(alpha_v + 16) as usize];
                if rd < best_rd {
                    best_rd = rd;
                    best = Some((alpha_u, alpha_v));
                }
            }
            alpha_v = alpha_v + 1;
        }
        alpha_u = alpha_u + 1;
    }
    best
}

/// The chroma-from-luma parameters chosen from the errors of each scaling
/// factor: the cheapest pair (see `best_cfl_alphas`), or the starting
/// parameters when no pair costs less than `u64::MAX`.
pub fn cfl_params_from_errors(alpha_sse: &[[u64; 33]; 2]) -> (p: CFLParams)
    requires
        cfl_costs_fit(*alpha_sse),
    ensures
        (forall|u: int, v: int| cfl_candidate(u, v) ==> #[trigger] cfl_cost(*alpha_sse, u, v) == u64::MAX)
            ==> p == default_cfl_params(),
        !(forall|u: int, v: int| cfl_candidate(u, v) ==> #[trigger] cfl_cost(*alpha_sse, u, v) == u64::MAX)
            ==> {
            &&& cfl_candidate(p.alpha_u as int, p.alpha_v as int)
            &&& forall|u: int, v: int|
                cfl_candidate(u, v) ==> cfl_cost(*alpha_sse, p.alpha_u as int, p.alpha_v as int)
                    <= #[trigger] cfl_cost(*alpha_sse, u, v)
            &&& forall|u: int, v: int|
                cfl_candidate(u, v) && cfl_before(u, v, p.alpha_u as int, p.alpha_v as int)
                    ==> cfl_cost(*alpha_sse, p.alpha_u as int, p.alpha_v as int)
                    < #[trigger] cfl_cost(*alpha_sse, u, v)
        },
{
    match best_cfl_alphas(alpha_sse) {
        Some((u, v)) => CFLParams::from_alpha(u, v),
        None => CFLParams::new(),
    }
}

/// Whether the cost of every candidate pair fits in `u64`, as
/// `best_cfl_alphas` needs.
pub fn cfl_costs_are_defined(alpha_sse: &[[u64; 33]; 2]) -> (b: bool)
    ensures
        b == cfl_costs_fit(*alpha_sse),
{
    let t = *alpha_sse;
    let mut u: i16 = -16;
    while u < 17
        invariant
            -16 <= u <= 17,
            t == *alpha_sse,
            forall|a: int, b: int| cfl_candidate(a, b) && a < u ==> #[trigger] cfl_cost(t, a, b) <= u64::MAX,
        decreases 17 - u,
    {
        let mut v: i16 = -16;
        while v < 17
            invariant
                -16 <= u < 17,
                -16 <= v <= 17,
                t == *alpha_sse,
                forall|a: int, b: int|
                    cfl_candidate(a, b) && cfl_before(a, b, u as int, v as int) ==> #[trigger] cfl_cost(t, a, b)
                        <= u64::MAX,
            decreases 17 - v,
        {
            if !(u == 0 && v == 0) && t[0][(u + 16) as usize] > u64::MAX - t[1][(v + 16) as usize] {
                assert(cfl_candidate(u as int, v as int));
                assert(cfl_cost(t, u as int, v as int) > u64::MAX);
                return false;
            }
            v = v + 1;
        }
        u = u + 1;
    }
    true
}


/// The CDEF filter strength whose error is least, the lowest index among
/// equals.
pub fn best_cdef_index(errs: &Vec<u64>) -> (best: u8)
    requires
        0 < errs.len() <= 256,
    ensures
        best < errs.len(),
        forall|k: int| 0 <= k < errs.len() ==> errs[best as int] <= #[trigger] errs[k],
        forall|k: int| 0 <= k < best ==> errs[best as int] < #[trigger] errs[k],
{
    let mut best_index: u8 = 0;
    let mut best_err: u64 = 0;
    let mut cdef_index: usize = 0;
    while cdef_index < errs.len()
        invariant
            0 < errs.len() <= 256,
            cdef_index <= errs.len(),
            cdef_index > 0 ==> best_index < cdef_index && best_err == errs[best_index as int],
            forall|k: int| 0 <= k < cdef_index ==> best_err <= #[trigger] errs[k],
            forall|k: int| 0 <= k < best_index ==> best_err < #[trigger] errs[k],
            cdef_index == 0 ==> best_index == 0,
        decreases errs.len() - cdef_index,
    {
        let err = errs[cdef_index];
        if cdef_index == 0 || err < best_err {
            best_err = err;
            best_index = cdef_index as u8;
        }
        cdef_index = cdef_index + 1;
    }
    best_index
}

/// Flag value of the pixels of CDEF's padded input that lie outside the frame.
pub const CDEF_VERY_LARGE: u16 = 30000;

/// Extent of a 64-pixel superblock in a plane decimated by `dec`.
pub open spec fn sb_extent(dec: int) -> int {
    64int / (pow2(dec as nat) as int)
}

/// Pixel at column `x`, row `y` of the padded CDEF input of the superblock at
/// pixel offset (`off_x`, `off_y`) of the reconstruction `rec` whose frame is
/// `w` by `h`: the pixel two rows up and two columns left in `rec`, or
/// `CDEF_VERY_LARGE` where that lies outside the frame.
pub open spec fn padded_pixel(
    rec: Plane,
    off_x: int,
    off_y: int,
    w: int,
    h: int,
    x: int,
    y: int,
) -> u16 {
    if off_y + y < 2 || off_y + y >= h + 2 {
        CDEF_VERY_LARGE
    } else if off_x + x >= 2 && off_x + x < w + 2 {
        rec.data@[off_y + y - 2]@[off_x + x - 2]
    } else {
        CDEF_VERY_LARGE
    }
}

fn superblock_extent(dec: usize) -> (e: usize)
    requires
        dec < usize::BITS,
    ensures
        e == sb_extent(dec as int),
        e <= 64,
{
    proof {
        vstd::bits::lemma_usize_shr_is_div(64, dec);
        vstd::arithmetic::power2::lemma_pow2_pos(dec as nat);
    }
    64usize >> dec
}

/// The CDEF input of one plane of a superblock, padded by two pixels on every
/// side (see `padded_pixel`).
pub fn cdef_padded_input(
    rec: &Plane,
    off_x: usize,
    off_y: usize,
    w: usize,
    h: usize,
    xdec: usize,
    ydec: usize,
) -> (out: Plane)
    requires
        xdec < usize::BITS,
        ydec < usize::BITS,
        h <= rec.data.len(),
        forall|r: int| 0 <= r < h ==> w <= #[trigger] rec.data@[r].len(),
        off_x + 68 <= usize::MAX,
        off_y + 68 <= usize::MAX,
        w + 2 <= usize::MAX,
        h + 2 <= usize::MAX,
    ensures
        out.data.len() == sb_extent(ydec as int) + 4,
        forall|y: int|
            0 <= y < out.data.len() ==> #[trigger] out.data@[y].len() == sb_extent(xdec as int) + 4,
        forall|x: int, y: int|
            0 <= y < out.data.len() && 0 <= x < sb_extent(xdec as int) + 4 ==> #[trigger] out.data@[y]@[x]
                == padded_pixel(*rec, off_x as int, off_y as int, w as int, h as int, x, y),
{
    let ew = superblock_extent(xdec);
    let eh = superblock_extent(ydec);
    let mut rows: Vec<Vec<u16>> = Vec::new();
    let mut y: usize = 0;
    while y < eh + 4
        invariant
            ew == sb_extent(xdec as int),
            eh == sb_extent(ydec as int),
            ew <= 64,
            eh <= 64,
            y <= eh + 4,
            rows.len() == y,
            h <= rec.data.len(),
            forall|r: int| 0 <= r < h ==> w <= #[trigger] rec.data@[r].len(),
            off_x + 68 <= usize::MAX,
            off_y + 68 <= usize::MAX,
            w + 2 <= usize::MAX,
            h + 2 <= usize::MAX,
            forall|r: int| 0 <= r < y ==> #[trigger] rows@[r].len() == ew + 4,
            forall|x: int, r: int|
                0 <= r < y && 0 <= x < ew + 4 ==> #[trigger] rows@[r]@[x] == padded_pixel(
                    *rec,
                    off_x as int,
                    off_y as int,
                    w as int,
                    h as int,
                    x,
                    r,
                ),
        decreases eh + 4 - y,
    {
        let mut row: Vec<u16> = Vec::new();
        if off_y + y < 2 || off_y + y >= h + 2 {
            // above or below the frame
            let mut x: usize = 0;
            while x < ew + 4
                invariant
                    ew <= 64,
                    x <= ew + 4,
                    row.len() == x,
                    off_y + y < 2 || off_y + y >= h + 2,
                    forall|k: int| 0 <= k < x ==> #[trigger] row@[k] == padded_pixel(
                        *rec,
                        off_x as int,
                        off_y as int,
                        w as int,
                        h as int,
                        k,
                        y as int,
                    ),
                decreases ew + 4 - x,
            {
                row.push(CDEF_VERY_LARGE);
                x = x + 1;
            }
        } else {
            let in_row = &rec.data[off_y + y - 2];
            assert(w <= rec.data@[off_y + y - 2].len());
            if off_x < 2 || off_x + ew + 2 >= w {
                // partly left or right of the frame
                let mut x: usize = 0;
                while x < ew + 4
                    invariant
                        ew <= 64,
                        x <= ew + 4,
                        row.len() == x,
                        !(off_y + y < 2 || off_y + y >= h + 2),
                        *in_row == rec.data@[off_y + y - 2],
                        w <= in_row.len(),
                        off_x + 68 <= usize::MAX,
                        w + 2 <= usize::MAX,
                        forall|k: int| 0 <= k < x ==> #[trigger] row@[k] == padded_pixel(
                            *rec,
                            off_x as int,
                            off_y as int,
                            w as int,
                            h as int,
                            k,
                            y as int,
                        ),
                    decreases ew + 4 - x,
                {
                    if off_x + x >= 2 && off_x + x < w + 2 {
                        row.push(in_row[off_x + x - 2]);
                    } else {
                        row.push(CDEF_VERY_LARGE);
                    }
                    x = x + 1;
                }
            } else {
                // inside the frame: copy
                let mut x: usize = 0;
                while x < ew + 4
                    invariant
                        ew <= 64,
                        x <= ew + 4,
                        row.len() == x,
                        !(off_y + y < 2 || off_y + y >= h + 2),
                        off_x >= 2,
                        off_x + ew + 2 < w,
                        *in_row == rec.data@[off_y + y - 2],
                        w <= in_row.len(),
                        forall|k: int| 0 <= k < x ==> #[trigger] row@[k] == padded_pixel(
                            *rec,
                            off_x as int,
                            off_y as int,
                            w as int,
                            h as int,
                            k,
                            y as int,
                        ),
                    decreases ew + 4 - x,
                {
                    row.push(in_row[off_x - 2 + x]);
                    x = x + 1;
                }
            }
        }
        rows.push(row);
        y = y + 1;
    }
    Plane { data: rows }
}

/// The chroma block dimensions are multiples of `MI_SIZE`, as measuring them
/// requires; on a block that carries chroma both are positive, so its chroma
/// is measured unless only luma is asked for.
pub proof fn law_chroma_dims_aligned(
    w_y: int,
    h_y: int,
    xdec: int,
    ydec: int,
    is_chroma_block: bool,
    luma_only: bool,
)
    requires
        w_y >= 0,
        h_y >= 0,
        xdec >= 0,
        ydec >= 0,
    ensures
        spec_chroma_dims(w_y, h_y, xdec, ydec, is_chroma_block).0 % (MI_SIZE as int) == 0,
        spec_chroma_dims(w_y, h_y, xdec, ydec, is_chroma_block).1 % (MI_SIZE as int) == 0,
        is_chroma_block ==> spec_chroma_dims(w_y, h_y, xdec, ydec, is_chroma_block).0 > 0
            && spec_chroma_dims(w_y, h_y, xdec, ydec, is_chroma_block).1 > 0,
        is_chroma_block && !luma_only ==> chroma_measured(
            w_y,
            h_y,
            xdec,
            ydec,
            is_chroma_block,
            luma_only,
        ),
{
    vstd::arithmetic::power2::lemma_pow2_pos(xdec as nat);
    vstd::arithmetic::power2::lemma_pow2_pos(ydec as nat);
    let w = w_y / (pow2(xdec as nat) as int);
    let h = h_y / (pow2(ydec as nat) as int);
    assert(w >= 0) by {
        vstd::arithmetic::div_mod::lemma_div_pos_is_pos(w_y, pow2(xdec as nat) as int);
    }
    assert(h >= 0) by {
        vstd::arithmetic::div_mod::lemma_div_pos_is_pos(h_y, pow2(ydec as nat) as int);
    }
    assert((w - w % 4) % 4 == 0);
    assert((h - h % 4) % 4 == 0);
}

/// Fast distortion of a transform block: the sum of absolute differences
/// between the input and the (already predicted) reconstruction over the
/// transform's width and height.
pub fn get_fast_distortion_tx_block(input: PlaneSlice, rec: PlaneSlice, tx_size: TxSize) -> (d: u64)
    requires
        covers(input, tx_width(tx_size), tx_height(tx_size)),
        covers(rec, tx_width(tx_size), tx_height(tx_size)),
        block_sum(rec, input, tx_width(tx_size), tx_height(tx_size), abs_diff_fn()) <= u32::MAX,
    ensures
        d == block_sum(rec, input, tx_width(tx_size), tx_height(tx_size), abs_diff_fn()),
{
    compute_fast_distortion(input, rec, tx_size.width(), tx_size.height())
}

/// Whether the `i`-th 8x8 block of a superblock (row by row, eight per row)
/// counts in CDEF's error: inside the frame of `cols` by `rows` smallest
/// blocks, and coded (not skipped).
pub open spec fn cdef_block_counted(
    sbo: SuperBlockOffset,
    cols: int,
    rows: int,
    skip: Seq<bool>,
    i: int,
) -> bool {
    &&& sbo.x * 16 + 2 * (i % 8) < cols
    &&& sbo.y * 16 + 2 * (i / 8) < rows
    &&& !skip[i]
}

/// CDEF's error over the first `n` 8x8 blocks of a superblock: the sum of the
/// three plane errors of each counted block.
pub open spec fn cdef_error_sum(
    sbo: SuperBlockOffset,
    cols: int,
    rows: int,
    skip: Seq<bool>,
    errs: Seq<[u64; 3]>,
    n: int,
) -> int
    decreases n,
{
    if n <= 0 {
        0
    } else {
        cdef_error_sum(sbo, cols, rows, skip, errs, n - 1) + if cdef_block_counted(
            sbo,
            cols,
            rows,
            skip,
            n - 1,
        ) {
            errs[n - 1]@[0] + errs[n - 1]@[1] + errs[n - 1]@[2]
        } else {
            0
        }
    }
}

proof fn lemma_cdef_error_sum_mono(
    sbo: SuperBlockOffset,
    cols: int,
    rows: int,
    skip: Seq<bool>,
    errs: Seq<[u64; 3]>,
    i: int,
    n: int,
)
    requires
        0 <= i <= n,
    ensures
        0 <= cdef_error_sum(sbo, cols, rows, skip, errs, i) <= cdef_error_sum(
            sbo,
            cols,
            rows,
            skip,
            errs,
            n,
        ),
    decreases n,
{
    if n > 0 {
        if i < n {
            lemma_cdef_error_sum_mono(sbo, cols, rows, skip, errs, i, n - 1);
        } else {
            lemma_cdef_error_sum_mono(sbo, cols, rows, skip, errs, i - 1, n - 1);
        }
    }
}

/// CDEF's error of one filter strength over a superblock: over its sixty-four
/// 8x8 blocks, those inside the frame and not skipped, the sum of the errors
/// of the three planes (`block_errors`, row by row, as `skip`).
pub fn cdef_strength_error(
    sbo: SuperBlockOffset,
    cols: usize,
    rows: usize,
    skip: &Vec<bool>,
    block_errors: &Vec<[u64; 3]>,
) -> (err: u64)
    requires
        skip.len() == 64,
        block_errors.len() == 64,
        sbo.x * 16 + 14 <= usize::MAX,
        sbo.y * 16 + 14 <= usize::MAX,
        cdef_error_sum(sbo, cols as int, rows as int, skip@, block_errors@, 64) <= u64::MAX,
    ensures
        err == cdef_error_sum(sbo, cols as int, rows as int, skip@, block_errors@, 64),
{
    let mut err: u64 = 0;
    let mut by: usize = 0;
    while by < 8
        invariant
            by <= 8,
            skip.len() == 64,
            block_errors.len() == 64,
            sbo.x * 16 + 14 <= usize::MAX,
            sbo.y * 16 + 14 <= usize::MAX,
            cdef_error_sum(sbo, cols as int, rows as int, skip@, block_errors@, 64) <= u64::MAX,
            err == cdef_error_sum(sbo, cols as int, rows as int, skip@, block_errors@, by * 8),
        decreases 8 - by,
    {
        let mut bx: usize = 0;
        while bx < 8
            invariant
                by < 8,
                bx <= 8,
                skip.len() == 64,
                block_errors.len() == 64,
                sbo.x * 16 + 14 <= usize::MAX,
                sbo.y * 16 + 14 <= usize::MAX,
                cdef_error_sum(sbo, cols as int, rows as int, skip@, block_errors@, 64) <= u64::MAX,
                err == cdef_error_sum(sbo, cols as int, rows as int, skip@, block_errors@, by * 8 + bx),
            decreases 8 - bx,
        {
            let i = by * 8 + bx;
            let bo = sbo.block_offset(bx * 2, by * 2);
            proof {
                assert(i as int % 8 == bx);
                assert(i as int / 8 == by);
                lemma_cdef_error_sum_mono(sbo, cols as int, rows as int, skip@, block_errors@, i + 1, 64);
            }
            if bo.x < cols && bo.y < rows {
                if !skip[i] {
                    let e = block_errors[i];
                    err = err + e[0];
                    err = err + e[1];
                    err = err + e[2];
                }
            }
            bx = bx + 1;
        }
        by = by + 1;
    }
    err
}

/// Whether `chroma_distortion` can measure the block (see
/// `chroma_distortion_defined`).
pub fn chroma_distortion_is_defined(
    input: &Vec<PlaneSlice>,
    rec: &Vec<PlaneSlice>,
    w_y: usize,
    h_y: usize,
    xdec: usize,
    ydec: usize,
    is_chroma_block: bool,
    luma_only: bool,
) -> (b: bool)
    requires
        three_planes(input@, rec@),
        xdec < usize::BITS,
        ydec < usize::BITS,
    ensures
        b == chroma_distortion_defined(
            input@,
            rec@,
            w_y as int,
            h_y as int,
            xdec as int,
            ydec as int,
            is_chroma_block,
            luma_only,
        ),
{
    if luma_only {
        return true;
    }
    let (w_uv, h_uv) = chroma_dims(w_y, h_y, xdec, ydec, is_chroma_block);
    if w_uv == 0 || h_uv == 0 {
        return true;
    }
    if !sse_is_defined(&input[1], &rec[1], w_uv, h_uv) || !sse_is_defined(&input[2], &rec[2], w_uv, h_uv) {
        return false;
    }
    let d1 = sse_wxh(&input[1], &rec[1], w_uv, h_uv);
    let d2 = sse_wxh(&input[2], &rec[2], w_uv, h_uv);
    (d1 as u128) + (d2 as u128) <= 0xffff_ffff_ffff_ffff
}

/// Whether `psnr_distortion` can measure the block (see
/// `psnr_distortion_defined`).
pub fn psnr_distortion_is_defined(
    input: &Vec<PlaneSlice>,
    rec: &Vec<PlaneSlice>,
    w_y: usize,
    h_y: usize,
    xdec: usize,
    ydec: usize,
    is_chroma_block: bool,
    luma_only: bool,
) -> (b: bool)
    requires
        three_planes(input@, rec@),
        xdec < usize::BITS,
        ydec < usize::BITS,
    ensures
        b == psnr_distortion_defined(
            input@,
            rec@,
            w_y as int,
            h_y as int,
            xdec as int,
            ydec as int,
            is_chroma_block,
            luma_only,
        ),
{
    if !sse_is_defined(&input[0], &rec[0], w_y, h_y) {
        return false;
    }
    if !chroma_distortion_is_defined(input, rec, w_y, h_y, xdec, ydec, is_chroma_block, luma_only) {
        return false;
    }
    let luma = sse_wxh(&input[0], &rec[0], w_y, h_y);
    let chroma = chroma_distortion(input, rec, w_y, h_y, xdec, ydec, is_chroma_block, luma_only);
    (luma as u128) + (chroma as u128) <= 0xffff_ffff_ffff_ffff
}

/// Whether the `i`-th 8x8 block of the superblock counts in CDEF's error
/// (see `cdef_block_counted`).
pub fn cdef_block_is_counted(sbo: SuperBlockOffset, cols: usize, rows: usize, skip: &Vec<bool>, i: usize) -> (b:
    bool)
    requires
        i < 64,
        skip.len() == 64,
        sbo.x * 16 + 14 <= usize::MAX,
        sbo.y * 16 + 14 <= usize::MAX,
    ensures
        b == cdef_block_counted(sbo, cols as int, rows as int, skip@, i as int),
{
    let bo = sbo.block_offset((i % 8) * 2, (i / 8) * 2);
    bo.x < cols && bo.y < rows && !skip[i]
}

/// Whether `cdef_strength_error` can sum the superblock's errors in `u64`.
pub fn cdef_strength_error_fits(
    sbo: SuperBlockOffset,
    cols: usize,
    rows: usize,
    skip: &Vec<bool>,
    block_errors: &Vec<[u64; 3]>,
) -> (b: bool)
    requires
        skip.len() == 64,
        block_errors.len() == 64,
        sbo.x * 16 + 14 <= usize::MAX,
        sbo.y * 16 + 14 <= usize::MAX,
    ensures
        b == (cdef_error_sum(sbo, cols as int, rows as int, skip@, block_errors@, 64) <= u64::MAX),
{
    let mut total: u128 = 0;
    let mut i: usize = 0;
    while i < 64
        invariant
            i <= 64,
            skip.len() == 64,
            block_errors.len() == 64,
            sbo.x * 16 + 14 <= usize::MAX,
            sbo.y * 16 + 14 <= usize::MAX,
            total == cdef_error_sum(sbo, cols as int, rows as int, skip@, block_errors@, i as int),
            total <= i * 0x3_0000_0000_0000_0000,
        decreases 64 - i,
    {
        if cdef_block_is_counted(sbo, cols, rows, skip, i) {
            let e = block_errors[i];
            total = total + e[0] as u128 + e[1] as u128 + e[2] as u128;
        }
        i = i + 1;
    }
    total <= 0xffff_ffff_ffff_ffff
}

/// Where chroma is measured the chroma distortion follows each chroma plane:
/// replacing only one chroma plane pair changes it by exactly the change of
/// that pair's squared error; with one pair unchanged between input and
/// reconstruction it is the squared error of the other. Where chroma is not
/// measured it is zero.
pub proof fn law_chroma_distortion_tracks_each_plane(
    input: Seq<PlaneSlice>,
    rec: Seq<PlaneSlice>,
    input2: Seq<PlaneSlice>,
    rec2: Seq<PlaneSlice>,
    w_y: int,
    h_y: int,
    xdec: int,
    ydec: int,
    is_chroma_block: bool,
    luma_only: bool,
)
    requires
        three_planes(input, rec),
        three_planes(input2, rec2),
    ensures
        ({
            let (w_uv, h_uv) = spec_chroma_dims(w_y, h_y, xdec, ydec, is_chroma_block);
            let d = spec_chroma_distortion(input, rec, w_y, h_y, xdec, ydec, is_chroma_block, luma_only);
            let d2 = spec_chroma_distortion(
                input2,
                rec2,
                w_y,
                h_y,
                xdec,
                ydec,
                is_chroma_block,
                luma_only,
            );
            let measured = chroma_measured(w_y, h_y, xdec, ydec, is_chroma_block, luma_only);
            &&& !measured ==> d == 0
            &&& measured && input2[1] == input[1] && rec2[1] == rec[1] ==> d2 - d == block_sse(
                input2[2],
                rec2[2],
                w_uv,
                h_uv,
            ) - block_sse(input[2], rec[2], w_uv, h_uv)
            &&& measured && input2[2] == input[2] && rec2[2] == rec[2] ==> d2 - d == block_sse(
                input2[1],
                rec2[1],
                w_uv,
                h_uv,
            ) - block_sse(input[1], rec[1], w_uv, h_uv)
            &&& measured && rec[1] == input[1] ==> d == block_sse(input[2], rec[2], w_uv, h_uv)
            &&& measured && rec[2] == input[2] ==> d == block_sse(input[1], rec[1], w_uv, h_uv)
        }),
{
    let (w_uv, h_uv) = spec_chroma_dims(w_y, h_y, xdec, ydec, is_chroma_block);
    law_sse_of_block_with_itself(input[1], w_uv, h_uv);
    law_sse_of_block_with_itself(input[2], w_uv, h_uv);
}

/// The distortion of a block is its luma squared error plus its chroma
/// distortion: replacing only the luma pair changes it by exactly the change
/// of the luma squared error.
pub proof fn law_psnr_distortion_tracks_luma(
    input: Seq<PlaneSlice>,
    rec: Seq<PlaneSlice>,
    input2: Seq<PlaneSlice>,
    rec2: Seq<PlaneSlice>,
    w_y: int,
    h_y: int,
    xdec: int,
    ydec: int,
    is_chroma_block: bool,
    luma_only: bool,
)
    requires
        three_planes(input, rec),
        three_planes(input2, rec2),
        input2[1] == input[1],
        rec2[1] == rec[1],
        input2[2] == input[2],
        rec2[2] == rec[2],
    ensures
        spec_psnr_distortion(input2, rec2, w_y, h_y, xdec, ydec, is_chroma_block, luma_only)
            - spec_psnr_distortion(input, rec, w_y, h_y, xdec, ydec, is_chroma_block, luma_only)
            == block_sse(input2[0], rec2[0], w_y, h_y) - block_sse(input[0], rec[0], w_y, h_y),
        rec[0] == input[0] ==> spec_psnr_distortion(
            input,
            rec,
            w_y,
            h_y,
            xdec,
            ydec,
            is_chroma_block,
            luma_only,
        ) == spec_chroma_distortion(input, rec, w_y, h_y, xdec, ydec, is_chroma_block, luma_only),
{
    law_sse_of_block_with_itself(input[0], w_y, h_y);
}

/// Sum of the three plane errors of a block.
pub open spec fn block_error_total(e: [u64; 3]) -> int {
    e@[0] + e@[1] + e@[2]
}

proof fn lemma_cdef_error_sum_update(
    sbo: SuperBlockOffset,
    cols: int,
    rows: int,
    skip: Seq<bool>,
    errs: Seq<[u64; 3]>,
    i: int,
    e: [u64; 3],
    n: int,
)
    requires
        0 <= i < errs.len(),
        n <= errs.len(),
    ensures
        cdef_error_sum(sbo, cols, rows, skip, errs.update(i, e), n) == cdef_error_sum(
            sbo,
            cols,
            rows,
            skip,
            errs,
            n,
        ) + if i < n && cdef_block_counted(sbo, cols, rows, skip, i) {
            block_error_total(e) - block_error_total(errs[i])
        } else {
            0
        },
    decreases n,
{
    if n > 0 {
        lemma_cdef_error_sum_update(sbo, cols, rows, skip, errs, i, e, n - 1);
    }
}

proof fn lemma_cdef_error_sum_single(
    sbo: SuperBlockOffset,
    cols: int,
    rows: int,
    skip: Seq<bool>,
    errs: Seq<[u64; 3]>,
    i: int,
    n: int,
)
    requires
        0 <= i < 64,
        n <= 64,
        forall|j: int| 0 <= j < 64 && j != i ==> !#[trigger] cdef_block_counted(sbo, cols, rows, skip, j),
        cdef_block_counted(sbo, cols, rows, skip, i),
    ensures
        cdef_error_sum(sbo, cols, rows, skip, errs, n) == if i < n {
            block_error_total(errs[i])
        } else {
            0
        },
    decreases n,
{
    if n > 0 {
        lemma_cdef_error_sum_single(sbo, cols, rows, skip, errs, i, n - 1);
        if n - 1 != i {
            assert(!cdef_block_counted(sbo, cols, rows, skip, n - 1));
        }
    }
}

/// CDEF's error of a strength counts each block's own errors: changing the
/// errors of one block changes it by exactly the change of that block's
/// total when the block counts (inside the frame and coded), and not at all
/// otherwise; with a single counted block it is that block's total.
pub proof fn law_cdef_error_counts_each_block_once(
    sbo: SuperBlockOffset,
    cols: int,
    rows: int,
    skip: Seq<bool>,
    errs: Seq<[u64; 3]>,
    i: int,
    e: [u64; 3],
)
    requires
        errs.len() == 64,
        skip.len() == 64,
        0 <= i < 64,
    ensures
        cdef_block_counted(sbo, cols, rows, skip, i) ==> cdef_error_sum(
            sbo,
            cols,
            rows,
            skip,
            errs.update(i, e),
            64,
        ) - cdef_error_sum(sbo, cols, rows, skip, errs, 64) == block_error_total(e)
            - block_error_total(errs[i]),
        !cdef_block_counted(sbo, cols, rows, skip, i) ==> cdef_error_sum(
            sbo,
            cols,
            rows,
            skip,
            errs.update(i, e),
            64,
        ) == cdef_error_sum(sbo, cols, rows, skip, errs, 64),
        skip[i] ==> cdef_error_sum(sbo, cols, rows, skip, errs.update(i, e), 64) == cdef_error_sum(
            sbo,
            cols,
            rows,
            skip,
            errs,
            64,
        ),
        cdef_block_counted(sbo, cols, rows, skip, i) && (forall|j: int|
            0 <= j < 64 && j != i ==> !#[trigger] cdef_block_counted(sbo, cols, rows, skip, j))
            ==> cdef_error_sum(sbo, cols, rows, skip, errs, 64) == block_error_total(errs[i]),
{
    lemma_cdef_error_sum_update(sbo, cols, rows, skip, errs, i, e, 64);
    if cdef_block_counted(sbo, cols, rows, skip, i) && (forall|j: int|
        0 <= j < 64 && j != i ==> !#[trigger] cdef_block_counted(sbo, cols, rows, skip, j)) {
        lemma_cdef_error_sum_single(sbo, cols, rows, skip, errs, i, 64);
    }
}

} // verus!
