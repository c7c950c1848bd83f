use vstd::prelude::*;

verus! {

/// Prediction modes, in the order of the AV1 specification: the intra modes,
/// then the single-reference inter modes, then the compound ones.
#[allow(non_camel_case_types)]
#[derive(Clone, Copy, Debug, PartialEq, Eq, Structural)]
pub enum PredictionMode {
    DC_PRED,
    V_PRED,
    H_PRED,
    D45_PRED,
    D135_PRED,
    D117_PRED,
    D153_PRED,
    D207_PRED,
    D63_PRED,
    SMOOTH_PRED,
    SMOOTH_V_PRED,
    SMOOTH_H_PRED,
    PAETH_PRED,
    UV_CFL_PRED,
    NEARESTMV,
    NEARMV,
    GLOBALMV,
    NEWMV,
    NEAREST_NEARESTMV,
    NEAR_NEARMV,
    NEAREST_NEWMV,
    NEW_NEARESTMV,
    NEAR_NEWMV,
    NEW_NEARMV,
    GLOBAL_GLOBALMV,
    NEW_NEWMV,
}

/// Whether a mode predicts from the current frame: every mode before
/// `NEARESTMV`.
pub open spec fn spec_is_intra(mode: PredictionMode) -> bool {
    match mode {
        PredictionMode::DC_PRED | PredictionMode::V_PRED | PredictionMode::H_PRED
        | PredictionMode::D45_PRED | PredictionMode::D135_PRED | PredictionMode::D117_PRED
        | PredictionMode::D153_PRED | PredictionMode::D207_PRED | PredictionMode::D63_PRED
        | PredictionMode::SMOOTH_PRED | PredictionMode::SMOOTH_V_PRED
        | PredictionMode::SMOOTH_H_PRED | PredictionMode::PAETH_PRED
        | PredictionMode::UV_CFL_PRED => true,
        _ => false,
    }
}

impl PredictionMode {
    /// Whether the mode predicts from the current frame.
    pub fn is_intra(self) -> (b: bool)
        ensures
            b == spec_is_intra(self),
    {
        match self {
            PredictionMode::DC_PRED | PredictionMode::V_PRED | PredictionMode::H_PRED
            | PredictionMode::D45_PRED | PredictionMode::D135_PRED | PredictionMode::D117_PRED
            | PredictionMode::D153_PRED | PredictionMode::D207_PRED | PredictionMode::D63_PRED
            | PredictionMode::SMOOTH_PRED | PredictionMode::SMOOTH_V_PRED
            | PredictionMode::SMOOTH_H_PRED | PredictionMode::PAETH_PRED
            | PredictionMode::UV_CFL_PRED => true,
            _ => false,
        }
    }
}

/// Reference frame slot of intra prediction.
pub const INTRA_FRAME: usize = 0;

/// Reference frame slot of the last frame.
pub const LAST_FRAME: usize = 1;

/// Frame types.
#[allow(non_camel_case_types)]
#[derive(Clone, Copy, Debug, PartialEq, Eq, Structural)]
pub enum FrameType {
    KEY,
    INTER,
    INTRA_ONLY,
    SWITCH,
}

/// Transform sets, from the DCT alone to all sixteen transform types.
#[allow(non_camel_case_types)]
#[derive(Clone, Copy, Debug, PartialEq, Eq, Structural)]
pub enum TxSet {
    TX_SET_DCTONLY,
    TX_SET_DCT_IDTX,
    TX_SET_DTT4_IDTX,
    TX_SET_DTT4_IDTX_1DDCT,
    TX_SET_DTT9_IDTX_1DDCT,
    TX_SET_ALL16,
}

/// The chroma modes tried with luma mode `luma_mode`, in order: the luma mode
/// itself; then, on a block carrying chroma with an intra luma mode, DC unless
/// the luma mode is DC, and chroma-from-luma where the block size allows it.
pub open spec fn spec_chroma_modes(
    luma_mode: PredictionMode,
    is_chroma_block: bool,
    cfl_allowed: bool,
) -> Seq<PredictionMode> {
    let with_dc = if is_chroma_block && spec_is_intra(luma_mode) && luma_mode
        != PredictionMode::DC_PRED {
        seq![luma_mode, PredictionMode::DC_PRED]
    } else {
        seq![luma_mode]
    };
    if is_chroma_block && spec_is_intra(luma_mode) && cfl_allowed {
        with_dc.push(PredictionMode::UV_CFL_PRED)
    } else {
        with_dc
    }
}

/// The chroma modes the mode decision tries with a luma mode (see
/// `spec_chroma_modes`).
pub fn chroma_modes(luma_mode: PredictionMode, is_chroma_block: bool, cfl_allowed: bool) -> (v: Vec<
    PredictionMode,
>)
    ensures
        v@ == spec_chroma_modes(luma_mode, is_chroma_block, cfl_allowed),
{
    let mut mode_set_chroma = vec![luma_mode];
    if is_chroma_block && luma_mode.is_intra() && luma_mode != PredictionMode::DC_PRED {
        mode_set_chroma.push(PredictionMode::DC_PRED);
    }
    if is_chroma_block && luma_mode.is_intra() && cfl_allowed {
        mode_set_chroma.push(PredictionMode::UV_CFL_PRED);
    }
    mode_set_chroma
}

/// The reference frame of a luma mode: the frame itself for intra modes, the
/// last frame otherwise.
pub fn ref_frame_for_mode(luma_mode: PredictionMode) -> (r: usize)
    ensures
        r == (if spec_is_intra(luma_mode) {
            INTRA_FRAME
        } else {
            LAST_FRAME
        }),
{
    if luma_mode.is_intra() {
        INTRA_FRAME
    } else {
        LAST_FRAME
    }
}

/// Whether the mode decision codes a candidate with the given skip flag: a
/// skipped block is never coded with an intra luma mode.
pub fn skip_is_tried(luma_mode: PredictionMode, skip: bool) -> (b: bool)
    ensures
        b == !(skip && spec_is_intra(luma_mode)),
{
    !(skip && luma_mode.is_intra())
}

/// Whether the full set of intra modes is searched: on key frames up to speed
/// 3 and on inter frames up to speed 1; the minimal set otherwise.
pub fn uses_full_intra_mode_set(frame_type: FrameType, speed: usize) -> (b: bool)
    ensures
        b == ((frame_type == FrameType::KEY && speed <= 3) || (frame_type == FrameType::INTER
            && speed <= 1)),
{
    (frame_type == FrameType::KEY && speed <= 3) || (frame_type == FrameType::INTER && speed <= 1)
}

/// Whether the transform type of a block is searched: only when its transform
/// set holds more than the DCT, at speed 3 or below, for a coded (not skipped)
/// block; otherwise the DCT is used.
pub fn tx_type_is_searched(tx_set: TxSet, speed: usize, skip: bool) -> (b: bool)
    ensures
        b == (tx_set != TxSet::TX_SET_DCTONLY && speed <= 3 && !skip),
{
    tx_set != TxSet::TX_SET_DCTONLY && speed <= 3 && !skip
}

/// The luma modes the mode decision tries, in order: on inter frames the
/// inter modes first; then the full or the minimal intra set, as
/// `uses_full_intra_mode_set` chooses.
pub fn luma_mode_candidates(
    frame_type: FrameType,
    speed: usize,
    intra_modes: &Vec<PredictionMode>,
    intra_modes_minimal: &Vec<PredictionMode>,
    inter_modes: &Vec<PredictionMode>,
) -> (v: Vec<PredictionMode>)
    ensures
        v@ == (if frame_type == FrameType::INTER {
            inter_modes@
        } else {
            Seq::<PredictionMode>::empty()
        }) + (if (frame_type == FrameType::KEY && speed <= 3) || (frame_type == FrameType::INTER
            && speed <= 1) {
            intra_modes@
        } else {
            intra_modes_minimal@
        }),
{
    let full = uses_full_intra_mode_set(frame_type, speed);
    let mut mode_set: Vec<PredictionMode> = Vec::new();
    if frame_type == FrameType::INTER {
        append_modes(&mut mode_set, inter_modes);
    }
    if full {
        append_modes(&mut mode_set, intra_modes);
    } else {
        append_modes(&mut mode_set, intra_modes_minimal);
    }
    mode_set
}

fn append_modes(dst: &mut Vec<PredictionMode>, src: &Vec<PredictionMode>)
    ensures
        final(dst)@ == old(dst)@ + src@,
{
    let mut i: usize = 0;
    while i < src.len()
        invariant
            i <= src.len(),
            dst@ == old(dst)@ + src@.subrange(0, i as int),
        decreases src.len() - i,
    {
        dst.push(src[i]);
        i = i + 1;
        assert(src@.subrange(0, i as int) == src@.subrange(0, i - 1) + seq![src@[i - 1]]);
    }
    assert(src@.subrange(0, src.len() as int) == src@);
}

/// A motion vector, in eighth pixels.
#[derive(Clone, Copy, Debug, PartialEq, Eq, Structural)]
pub struct MotionVector {
    pub row: i16,
    pub col: i16,
}

/// The zero motion vector.
pub open spec fn zero_mv() -> MotionVector {
    MotionVector { row: 0i16, col: 0i16 }
}

/// The motion vector a candidate with luma mode `luma_mode` is coded with:
/// the motion search's `estimate` for `NEWMV`; the first of the reference
/// candidates `mv_stack` for `NEARESTMV`, zero when there is none; zero for
/// every other mode.
pub fn candidate_mv(luma_mode: PredictionMode, estimate: MotionVector, mv_stack: &Vec<MotionVector>) -> (mv:
    MotionVector)
    ensures
        mv == (match luma_mode {
            PredictionMode::NEWMV => estimate,
            PredictionMode::NEARESTMV => if mv_stack.len() > 0 {
                mv_stack@[0]
            } else {
                zero_mv()
            },
            _ => zero_mv(),
        }),
{
    match luma_mode {
        PredictionMode::NEWMV => estimate,
        PredictionMode::NEARESTMV => if mv_stack.len() > 0 {
            mv_stack[0]
        } else {
            MotionVector { row: 0, col: 0 }
        },
        _ => MotionVector { row: 0, col: 0 },
    }
}

/// Chroma-from-luma scaling factors of the two chroma planes.
#[derive(Clone, Copy, Debug, PartialEq, Eq, Structural)]
pub struct CFLParams {
    pub alpha_u: i16,
    pub alpha_v: i16,
}

/// The parameters a block starts with: -1 for the first chroma plane, 0 for
/// the second.
pub open spec fn default_cfl_params() -> CFLParams {
    CFLParams { alpha_u: -1i16, alpha_v: 0i16 }
}

impl CFLParams {
    /// The parameters a block starts with (see `default_cfl_params`).
    pub fn new() -> (p: CFLParams)
        ensures
            p == default_cfl_params(),
    {
        CFLParams { alpha_u: -1, alpha_v: 0 }
    }

    /// The parameters of the scaling factors `alpha_u` and `alpha_v`.
    pub fn from_alpha(alpha_u: i16, alpha_v: i16) -> (p: CFLParams)
        ensures
            p == (CFLParams { alpha_u, alpha_v }),
    {
        CFLParams { alpha_u, alpha_v }
    }
}

/// The chroma-from-luma parameters a candidate is coded with: those the search
/// found (`searched`) when its chroma mode is chroma-from-luma, the starting
/// parameters otherwise.
pub fn candidate_cfl_params(chroma_mode: PredictionMode, searched: CFLParams) -> (p: CFLParams)
    ensures
        p == (if chroma_mode == PredictionMode::UV_CFL_PRED {
            searched
        } else {
            default_cfl_params()
        }),
{
    if chroma_mode == PredictionMode::UV_CFL_PRED {
        searched
    } else {
        CFLParams::new()
    }
}

} // verus!
