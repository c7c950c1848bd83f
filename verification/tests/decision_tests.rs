use rdo::partition::{split_subsize, BlockOffset, BlockSize, PartitionType, SuperBlockOffset, TxSize};
use rdo::plane::{Plane, PlaneSlice};
use rdo::predict::{
    candidate_cfl_params, candidate_mv, chroma_modes, luma_mode_candidates, ref_frame_for_mode, CFLParams, MotionVector, skip_is_tried, tx_type_is_searched, uses_full_intra_mode_set,
    FrameType, PredictionMode, TxSet, INTRA_FRAME, LAST_FRAME,
};
use rdo::rdo::{
    best_cdef_index, best_cfl_alphas, cdef_padded_input, cdef_strength_error, cdef_strength_error_fits,
    cfl_costs_are_defined, cfl_params_from_errors, chroma_distortion_is_defined, psnr_distortion_is_defined, cfl_uv_tx_size, chroma_dims,
    get_fast_distortion_tx_block, largest_tx_size, partition_is_candidate, psnr_distortion,
    rdo_type_for_speed, split_offsets, RDOType,
    CDEF_VERY_LARGE,
};

#[test]
fn tx_size_dimensions() {
    assert_eq!(TxSize::TX_4X4.index(), 0);
    assert_eq!(TxSize::TX_32X32.index(), 3);
    assert_eq!(TxSize::TX_64X16.index(), 18);
    assert_eq!(TxSize::TX_16X64.width(), 16);
    assert_eq!(TxSize::TX_16X64.height(), 64);
    assert_eq!(TxSize::TX_8X4.width(), 8);
    assert_eq!(TxSize::TX_8X4.height(), 4);
}

#[test]
fn block_size_dimensions() {
    assert_eq!(BlockSize::BLOCK_4X4.index(), 0);
    assert_eq!(BlockSize::BLOCK_32X32.index(), 9);
    assert_eq!(BlockSize::BLOCK_INVALID.index(), 22);
    assert_eq!(BlockSize::BLOCK_64X128.width(), 64);
    assert_eq!(BlockSize::BLOCK_64X128.height(), 128);
    assert_eq!(BlockSize::BLOCK_32X8.width_mi(), 8);
}

#[test]
fn rdo_type_by_speed() {
    assert_eq!(rdo_type_for_speed(0), RDOType::Accurate);
    assert_eq!(rdo_type_for_speed(1), RDOType::Fast);
    assert_eq!(rdo_type_for_speed(10), RDOType::Fast);
}

#[test]
fn largest_transform_sizes() {
    assert_eq!(largest_tx_size(BlockSize::BLOCK_4X4), TxSize::TX_4X4);
    assert_eq!(largest_tx_size(BlockSize::BLOCK_8X8), TxSize::TX_8X8);
    assert_eq!(largest_tx_size(BlockSize::BLOCK_16X16), TxSize::TX_16X16);
    assert_eq!(largest_tx_size(BlockSize::BLOCK_32X32), TxSize::TX_32X32);
    assert_eq!(largest_tx_size(BlockSize::BLOCK_64X64), TxSize::TX_32X32);
    assert_eq!(largest_tx_size(BlockSize::BLOCK_4X8), TxSize::TX_32X32);
}

#[test]
fn cfl_chroma_transform_sizes() {
    assert_eq!(cfl_uv_tx_size(BlockSize::BLOCK_4X4), TxSize::TX_4X4);
    assert_eq!(cfl_uv_tx_size(BlockSize::BLOCK_8X8), TxSize::TX_4X4);
    assert_eq!(cfl_uv_tx_size(BlockSize::BLOCK_16X16), TxSize::TX_8X8);
    assert_eq!(cfl_uv_tx_size(BlockSize::BLOCK_32X32), TxSize::TX_16X16);
    assert_eq!(cfl_uv_tx_size(BlockSize::BLOCK_64X64), TxSize::TX_32X32);
}

#[test]
fn split_sizes_and_candidates() {
    assert_eq!(split_subsize(BlockSize::BLOCK_64X64), BlockSize::BLOCK_32X32);
    assert_eq!(split_subsize(BlockSize::BLOCK_8X8), BlockSize::BLOCK_4X4);
    assert_eq!(split_subsize(BlockSize::BLOCK_4X4), BlockSize::BLOCK_INVALID);
    assert_eq!(split_subsize(BlockSize::BLOCK_16X32), BlockSize::BLOCK_INVALID);
    assert!(partition_is_candidate(PartitionType::PARTITION_NONE, BlockSize::BLOCK_32X32));
    assert!(!partition_is_candidate(PartitionType::PARTITION_NONE, BlockSize::BLOCK_32X64));
    assert!(!partition_is_candidate(PartitionType::PARTITION_NONE, BlockSize::BLOCK_64X64));
    // the 4:1 sizes come after 128x128 in the block-size order
    assert!(!partition_is_candidate(PartitionType::PARTITION_NONE, BlockSize::BLOCK_4X16));
    assert!(partition_is_candidate(PartitionType::PARTITION_SPLIT, BlockSize::BLOCK_64X64));
    assert!(!partition_is_candidate(PartitionType::PARTITION_SPLIT, BlockSize::BLOCK_4X4));
}

#[test]
fn split_offsets_are_quarters() {
    let offs = split_offsets(BlockSize::BLOCK_64X64, &BlockOffset { x: 16, y: 32 });
    assert_eq!(offs[0], BlockOffset { x: 16, y: 32 });
    assert_eq!(offs[1], BlockOffset { x: 24, y: 32 });
    assert_eq!(offs[2], BlockOffset { x: 16, y: 40 });
    assert_eq!(offs[3], BlockOffset { x: 24, y: 40 });
    let offs = split_offsets(BlockSize::BLOCK_8X8, &BlockOffset { x: 0, y: 0 });
    assert_eq!(offs[3], BlockOffset { x: 1, y: 1 });
}

#[test]
fn chroma_dimensions() {
    assert_eq!(chroma_dims(16, 16, 1, 1, true), (8, 8));
    assert_eq!(chroma_dims(16, 8, 1, 1, false), (8, 4));
    // 4 >> 1 = 2 rounds down to 0: replaced on a chroma block only
    assert_eq!(chroma_dims(4, 4, 1, 1, true), (4, 4));
    assert_eq!(chroma_dims(4, 4, 1, 1, false), (0, 0));
    assert_eq!(chroma_dims(8, 4, 1, 1, false), (4, 0));
    assert_eq!(chroma_dims(12, 8, 0, 0, false), (12, 8));
    assert_eq!(chroma_dims(24, 8, 1, 0, false), (12, 8));
}

#[test]
fn psnr_distortion_adds_chroma_when_measured() {
    let in_y = Plane { data: vec![vec![10u16; 8]; 8] };
    let rec_y = Plane { data: vec![vec![12u16; 8]; 8] };
    let in_uv = Plane { data: vec![vec![5u16; 4]; 4] };
    let rec_uv = Plane { data: vec![vec![6u16; 4]; 4] };
    let input = vec![
        PlaneSlice { plane: &in_y, x: 0, y: 0 },
        PlaneSlice { plane: &in_uv, x: 0, y: 0 },
        PlaneSlice { plane: &in_uv, x: 0, y: 0 },
    ];
    let rec = vec![
        PlaneSlice { plane: &rec_y, x: 0, y: 0 },
        PlaneSlice { plane: &rec_uv, x: 0, y: 0 },
        PlaneSlice { plane: &rec_uv, x: 0, y: 0 },
    ];
    assert_eq!(psnr_distortion(&input, &rec, 8, 8, 1, 1, true, false), 256 + 16 + 16);
    assert_eq!(psnr_distortion(&input, &rec, 8, 8, 1, 1, true, true), 256);
    // 4x4 luma: chroma vanishes without the chroma flag
    assert_eq!(psnr_distortion(&input, &rec, 4, 4, 1, 1, false, false), 64);
    assert_eq!(psnr_distortion(&input, &rec, 4, 4, 1, 1, true, false), 64 + 16 + 16);
}

#[test]
fn cfl_search_picks_first_least_cost() {
    let mut t = [[0u64; 33]; 2];
    for i in 0..33 {
        let d = if i >= 16 { i - 16 } else { 16 - i } as u64;
        t[0][i] = d * 10;
        t[1][i] = d * 10;
    }
    // (0, 0) is excluded; cost 10 first at (-1, 0)
    assert_eq!(best_cfl_alphas(&t), Some((-1, 0)));
    t[1][17] = 0;
    // (0, 1) now costs 0
    assert_eq!(best_cfl_alphas(&t), Some((0, 1)));
}

#[test]
fn cfl_search_without_affordable_pair() {
    let mut t = [[0u64; 33]; 2];
    t[0] = [u64::MAX; 33];
    assert_eq!(best_cfl_alphas(&t), None);
}

#[test]
fn cdef_index_is_first_minimum() {
    assert_eq!(best_cdef_index(&vec![5, 3, 3, 7]), 1);
    assert_eq!(best_cdef_index(&vec![2]), 0);
    assert_eq!(best_cdef_index(&vec![4, 4, 4, 4, 4, 4, 4, 1]), 7);
    assert_eq!(best_cdef_index(&vec![0, 0]), 0);
}

fn numbered_plane(w: usize, h: usize) -> Plane {
    let mut rows = Vec::new();
    for y in 0..h {
        let mut row = Vec::new();
        for x in 0..w {
            row.push((y * 100 + x) as u16);
        }
        rows.push(row);
    }
    Plane { data: rows }
}

#[test]
fn cdef_padding_at_frame_corner() {
    let rec = numbered_plane(10, 10);
    // decimation 3: an 8-pixel superblock, padded to 12
    let out = cdef_padded_input(&rec, 0, 0, 10, 10, 3, 3);
    assert_eq!(out.data.len(), 12);
    assert!(out.data.iter().all(|r| r.len() == 12));
    assert_eq!(out.data[0][0], CDEF_VERY_LARGE);
    assert_eq!(out.data[1][5], CDEF_VERY_LARGE);
    assert_eq!(out.data[5][1], CDEF_VERY_LARGE);
    assert_eq!(out.data[2][2], 0);
    assert_eq!(out.data[3][4], 102);
    assert_eq!(out.data[11][11], 909);
}

#[test]
fn cdef_padding_inside_frame_copies() {
    let rec = numbered_plane(20, 20);
    let out = cdef_padded_input(&rec, 4, 5, 20, 20, 3, 3);
    assert_eq!(out.data[0][0], 302);
    assert_eq!(out.data[11][11], 1413);
    let out = cdef_padded_input(&rec, 12, 12, 20, 20, 3, 3);
    // the frame ends at column and row 19
    assert_eq!(out.data[9][9], 1919);
    assert_eq!(out.data[10][5], CDEF_VERY_LARGE);
    assert_eq!(out.data[5][10], CDEF_VERY_LARGE);
}

#[test]
fn chroma_mode_candidates() {
    assert_eq!(chroma_modes(PredictionMode::DC_PRED, true, true), vec![PredictionMode::DC_PRED, PredictionMode::UV_CFL_PRED]);
    assert_eq!(chroma_modes(PredictionMode::V_PRED, true, true), vec![PredictionMode::V_PRED, PredictionMode::DC_PRED, PredictionMode::UV_CFL_PRED]);
    assert_eq!(chroma_modes(PredictionMode::V_PRED, true, false), vec![PredictionMode::V_PRED, PredictionMode::DC_PRED]);
    assert_eq!(chroma_modes(PredictionMode::V_PRED, false, true), vec![PredictionMode::V_PRED]);
    assert_eq!(chroma_modes(PredictionMode::NEWMV, true, true), vec![PredictionMode::NEWMV]);
}

#[test]
fn mode_properties() {
    assert!(PredictionMode::PAETH_PRED.is_intra());
    assert!(PredictionMode::UV_CFL_PRED.is_intra());
    assert!(!PredictionMode::NEARESTMV.is_intra());
    assert_eq!(ref_frame_for_mode(PredictionMode::H_PRED), INTRA_FRAME);
    assert_eq!(ref_frame_for_mode(PredictionMode::NEWMV), LAST_FRAME);
    assert!(!skip_is_tried(PredictionMode::DC_PRED, true));
    assert!(skip_is_tried(PredictionMode::DC_PRED, false));
    assert!(skip_is_tried(PredictionMode::NEWMV, true));
}

#[test]
fn search_settings() {
    assert!(uses_full_intra_mode_set(FrameType::KEY, 3));
    assert!(!uses_full_intra_mode_set(FrameType::KEY, 4));
    assert!(uses_full_intra_mode_set(FrameType::INTER, 1));
    assert!(!uses_full_intra_mode_set(FrameType::INTER, 2));
    assert!(!uses_full_intra_mode_set(FrameType::INTRA_ONLY, 0));
    assert!(tx_type_is_searched(TxSet::TX_SET_ALL16, 3, false));
    assert!(!tx_type_is_searched(TxSet::TX_SET_ALL16, 4, false));
    assert!(!tx_type_is_searched(TxSet::TX_SET_DCTONLY, 0, false));
    assert!(!tx_type_is_searched(TxSet::TX_SET_DCT_IDTX, 0, true));
}

#[test]
fn fast_distortion_of_transform_block() {
    let input = Plane { data: vec![vec![9u16; 8]; 8] };
    let rec = Plane { data: vec![vec![7u16; 8]; 8] };
    let si = PlaneSlice { plane: &input, x: 0, y: 0 };
    let sr = PlaneSlice { plane: &rec, x: 0, y: 0 };
    assert_eq!(get_fast_distortion_tx_block(si, sr, TxSize::TX_4X4), 32);
    assert_eq!(get_fast_distortion_tx_block(si, sr, TxSize::TX_8X4), 64);
}

#[test]
fn cfl_cost_domain() {
    let mut t = [[0u64; 33]; 2];
    assert!(cfl_costs_are_defined(&t));
    t[0][16] = u64::MAX;
    t[1][16] = 1;
    // (0, 0) is not a candidate
    assert!(cfl_costs_are_defined(&t));
    t[1][17] = 1;
    assert!(!cfl_costs_are_defined(&t));
}

#[test]
fn luma_mode_lists() {
    let full = vec![PredictionMode::DC_PRED, PredictionMode::V_PRED, PredictionMode::PAETH_PRED];
    let minimal = vec![PredictionMode::DC_PRED];
    let inter = vec![PredictionMode::NEWMV, PredictionMode::NEARESTMV];
    assert_eq!(
        luma_mode_candidates(FrameType::INTER, 1, &full, &minimal, &inter),
        vec![PredictionMode::NEWMV, PredictionMode::NEARESTMV, PredictionMode::DC_PRED, PredictionMode::V_PRED, PredictionMode::PAETH_PRED]
    );
    assert_eq!(
        luma_mode_candidates(FrameType::INTER, 2, &full, &minimal, &inter),
        vec![PredictionMode::NEWMV, PredictionMode::NEARESTMV, PredictionMode::DC_PRED]
    );
    assert_eq!(luma_mode_candidates(FrameType::KEY, 3, &full, &minimal, &inter), full);
    assert_eq!(luma_mode_candidates(FrameType::KEY, 4, &full, &minimal, &inter), minimal);
}

#[test]
fn candidate_motion_vectors() {
    let est = MotionVector { row: 3, col: -4 };
    let stack = vec![MotionVector { row: 1, col: 2 }, MotionVector { row: 5, col: 6 }];
    let zero = MotionVector { row: 0, col: 0 };
    assert_eq!(candidate_mv(PredictionMode::NEWMV, est, &stack), est);
    assert_eq!(candidate_mv(PredictionMode::NEARESTMV, est, &stack), MotionVector { row: 1, col: 2 });
    assert_eq!(candidate_mv(PredictionMode::NEARESTMV, est, &vec![]), zero);
    assert_eq!(candidate_mv(PredictionMode::DC_PRED, est, &stack), zero);
    assert_eq!(candidate_mv(PredictionMode::NEARMV, est, &stack), zero);
}

#[test]
fn candidate_cfl_parameters() {
    let searched = CFLParams::from_alpha(3, -2);
    assert_eq!(candidate_cfl_params(PredictionMode::UV_CFL_PRED, searched), searched);
    assert_eq!(candidate_cfl_params(PredictionMode::DC_PRED, searched), CFLParams::new());
    assert_eq!(CFLParams::new(), CFLParams { alpha_u: -1, alpha_v: 0 });
    let mut t = [[0u64; 33]; 2];
    t[0] = [u64::MAX; 33];
    assert_eq!(cfl_params_from_errors(&t), CFLParams::new());
    let mut t = [[7u64; 33]; 2];
    t[0][20] = 1;
    t[1][10] = 1;
    assert_eq!(cfl_params_from_errors(&t), CFLParams { alpha_u: 4, alpha_v: -6 });
}

#[test]
fn cdef_strength_error_counts_coded_blocks_in_frame() {
    let sbo = SuperBlockOffset { x: 1, y: 0 };
    assert_eq!(sbo.block_offset(4, 6), BlockOffset { x: 20, y: 6 });
    let mut skip = vec![false; 64];
    let mut errs = vec![[1u64, 2, 3]; 64];
    errs[9] = [100, 0, 0];
    skip[9] = true;
    // all blocks inside a large frame: 63 counted blocks of 6
    assert_eq!(cdef_strength_error(sbo, 1000, 1000, &skip, &errs), 63 * 6);
    // frame of 20 columns: block x = 16 + 2 bx < 20 for bx < 2; 4 rows: by < 2
    skip[9] = false;
    assert_eq!(cdef_strength_error(sbo, 20, 4, &skip, &errs), 6 + 6 + 6 + 100);
    assert!(cdef_strength_error_fits(sbo, 20, 4, &skip, &errs));
    let huge = vec![[u64::MAX, 0, 0]; 64];
    assert!(!cdef_strength_error_fits(sbo, 1000, 1000, &skip, &huge));
    assert!(cdef_strength_error_fits(sbo, 0, 0, &skip, &huge));
}

#[test]
fn distortion_checks() {
    let in_y = Plane { data: vec![vec![10u16; 8]; 8] };
    let in_uv = Plane { data: vec![vec![5u16; 2]; 2] };
    let input = vec![
        PlaneSlice { plane: &in_y, x: 0, y: 0 },
        PlaneSlice { plane: &in_uv, x: 0, y: 0 },
        PlaneSlice { plane: &in_uv, x: 0, y: 0 },
    ];
    assert!(psnr_distortion_is_defined(&input, &input, 8, 8, 1, 1, false, true));
    // the 4x4 chroma block does not fit in the 2x2 chroma plane
    assert!(!psnr_distortion_is_defined(&input, &input, 8, 8, 1, 1, false, false));
    assert!(!chroma_distortion_is_defined(&input, &input, 8, 8, 1, 1, false, false));
    assert!(chroma_distortion_is_defined(&input, &input, 8, 8, 1, 1, false, true));
}

#[test]
fn cdef_counted_blocks() {
    let sbo = SuperBlockOffset { x: 0, y: 1 };
    let mut skip = vec![false; 64];
    skip[3] = true;
    // block 1 of row 0: x = 2, y = 16
    assert!(rdo::rdo::cdef_block_is_counted(sbo, 10, 20, &skip, 1));
    // skipped
    assert!(!rdo::rdo::cdef_block_is_counted(sbo, 10, 20, &skip, 3));
    // block 5: x = 10 is outside 10 columns
    assert!(!rdo::rdo::cdef_block_is_counted(sbo, 10, 20, &skip, 5));
    // row 2: y = 20 is outside 20 rows
    assert!(!rdo::rdo::cdef_block_is_counted(sbo, 10, 20, &skip, 16));
}
