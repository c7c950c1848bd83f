use rdo::plane::{
    cdef_dist_moments_8x8, compute_fast_distortion, covers_block, moments_are_defined, sse_is_defined, sse_wxh, Plane,
    PlaneSlice,
};

fn plane_of(rows: Vec<Vec<u16>>) -> Plane {
    Plane { data: rows }
}

fn filled(w: usize, h: usize, v: u16) -> Plane {
    plane_of(vec![vec![v; w]; h])
}

#[test]
fn slice_pixel_and_subslice() {
    let p = plane_of(vec![vec![1, 2, 3], vec![4, 5, 6]]);
    let s = PlaneSlice { plane: &p, x: 0, y: 0 };
    assert_eq!(s.p(2, 1), 6);
    let t = s.subslice(1, 1);
    assert_eq!(t.x, 1);
    assert_eq!(t.y, 1);
    assert_eq!(t.p(0, 0), 5);
}

#[test]
fn sse_of_constant_difference() {
    let a = filled(8, 8, 10);
    let b = filled(8, 8, 13);
    let sa = PlaneSlice { plane: &a, x: 0, y: 0 };
    let sb = PlaneSlice { plane: &b, x: 0, y: 0 };
    assert_eq!(sse_wxh(&sa, &sb, 8, 8), 64 * 9);
    assert_eq!(sse_wxh(&sa, &sb, 4, 4), 16 * 9);
    assert_eq!(sse_wxh(&sa, &sa, 8, 8), 0);
}

#[test]
fn sse_reads_block_at_offset() {
    let mut rows = vec![vec![0u16; 8]; 8];
    rows[5][6] = 3;
    let a = plane_of(rows);
    let b = filled(8, 8, 0);
    let sa = PlaneSlice { plane: &a, x: 4, y: 4 };
    let sb = PlaneSlice { plane: &b, x: 4, y: 4 };
    assert_eq!(sse_wxh(&sa, &sb, 4, 4), 9);
    let sa0 = PlaneSlice { plane: &a, x: 0, y: 0 };
    let sb0 = PlaneSlice { plane: &b, x: 0, y: 0 };
    assert_eq!(sse_wxh(&sa0, &sb0, 4, 4), 0);
}

#[test]
fn sse_reads_pixels_as_i16() {
    // 40000 read as i16 is -25536
    let a = filled(4, 4, 40000);
    let b = filled(4, 4, 0);
    let sa = PlaneSlice { plane: &a, x: 0, y: 0 };
    let sb = PlaneSlice { plane: &b, x: 0, y: 0 };
    assert_eq!(sse_wxh(&sa, &sb, 4, 4), 16 * 25536 * 25536);
}

#[test]
fn fast_distortion_is_sum_of_absolute_differences() {
    let a = plane_of(vec![vec![1, 9], vec![5, 5]]);
    let b = plane_of(vec![vec![4, 2], vec![5, 0]]);
    let sa = PlaneSlice { plane: &a, x: 0, y: 0 };
    let sb = PlaneSlice { plane: &b, x: 0, y: 0 };
    assert_eq!(compute_fast_distortion(sa, sb, 2, 2), 3 + 7 + 0 + 5);
    assert_eq!(compute_fast_distortion(sb, sa, 2, 2), 15);
    assert_eq!(compute_fast_distortion(sa, sb, 1, 1), 3);
    assert_eq!(compute_fast_distortion(sa, sb, 0, 2), 0);
}

#[test]
fn moments_of_constant_blocks() {
    let a = filled(8, 8, 10);
    let b = filled(8, 8, 12);
    let sa = PlaneSlice { plane: &a, x: 0, y: 0 };
    let sb = PlaneSlice { plane: &b, x: 0, y: 0 };
    let m = cdef_dist_moments_8x8(&sa, &sb);
    assert_eq!(m.svar, 0);
    assert_eq!(m.dvar, 0);
    assert_eq!(m.sse, 64 * 4);
}

#[test]
fn moments_of_varying_block() {
    // the first block alternates 0 and 2 by column: sum 64, sum of squares 128
    let mut rows = vec![vec![0u16; 8]; 8];
    for r in rows.iter_mut() {
        for (i, v) in r.iter_mut().enumerate() {
            *v = if i % 2 == 0 { 0 } else { 2 };
        }
    }
    let a = plane_of(rows);
    let b = filled(8, 8, 1);
    let sa = PlaneSlice { plane: &a, x: 0, y: 0 };
    let sb = PlaneSlice { plane: &b, x: 0, y: 0 };
    let m = cdef_dist_moments_8x8(&sa, &sb);
    // 128 - (64 * 64 + 32) / 64 = 128 - 64
    assert_eq!(m.svar, 64);
    assert_eq!(m.dvar, 0);
    // every pixel differs by one
    assert_eq!(m.sse, 64);
}

#[test]
fn measures_are_symmetric_and_vanish_on_equal_blocks() {
    let a = plane_of(vec![vec![3, 7, 1, 0], vec![2, 2, 9, 4], vec![0, 0, 0, 1], vec![5, 6, 7, 8]]);
    let b = plane_of(vec![vec![1, 1, 1, 1], vec![4, 0, 2, 2], vec![9, 9, 0, 0], vec![5, 5, 5, 5]]);
    let sa = PlaneSlice { plane: &a, x: 0, y: 0 };
    let sb = PlaneSlice { plane: &b, x: 0, y: 0 };
    assert_eq!(sse_wxh(&sa, &sb, 4, 4), sse_wxh(&sb, &sa, 4, 4));
    assert_eq!(sse_wxh(&sa, &sb, 4, 4), 4 + 36 + 0 + 1 + 4 + 4 + 49 + 4 + 81 + 81 + 0 + 1 + 0 + 1 + 4 + 9);
    assert_eq!(compute_fast_distortion(sa, sb, 4, 4), compute_fast_distortion(sb, sa, 4, 4));
    assert_eq!(compute_fast_distortion(sa, sa, 4, 4), 0);
    assert_eq!(sse_wxh(&sb, &sb, 4, 4), 0);
}

#[test]
fn measurement_checks() {
    let a = filled(8, 8, 10);
    let big = filled(8, 8, 50000);
    let sa = PlaneSlice { plane: &a, x: 0, y: 0 };
    let sbig = PlaneSlice { plane: &big, x: 0, y: 0 };
    assert!(covers_block(&sa, 8, 8));
    assert!(!covers_block(&sa, 9, 8));
    assert!(!covers_block(&PlaneSlice { plane: &a, x: 0, y: 1 }, 8, 8));
    assert!(sse_is_defined(&sa, &sa, 8, 8));
    // not a multiple of four
    assert!(!sse_is_defined(&sa, &sa, 6, 8));
    // 50000 reads as -15536 and 10 - (-15536) fits in i16; the row sums fit in u32
    assert!(sse_is_defined(&sa, &sbig, 8, 8));
    let hi = filled(8, 8, 32767);
    let lo = filled(8, 8, 32768);
    // 32767 - (-32768) does not fit in i16
    assert!(!sse_is_defined(&PlaneSlice { plane: &hi, x: 0, y: 0 }, &PlaneSlice { plane: &lo, x: 0, y: 0 }, 4, 4));
    assert!(moments_are_defined(&sa, &sa));
    // 50000 squared leaves i32
    assert!(!moments_are_defined(&sa, &sbig));
}

#[test]
fn sse_at_least_fast_distortion() {
    let a = plane_of(vec![vec![5, 6, 7, 8]; 4]);
    let close = plane_of(vec![vec![4, 6, 8, 8]; 4]);
    let far = plane_of(vec![vec![1, 6, 7, 8]; 4]);
    let sa = PlaneSlice { plane: &a, x: 0, y: 0 };
    let sc = PlaneSlice { plane: &close, x: 0, y: 0 };
    let sf = PlaneSlice { plane: &far, x: 0, y: 0 };
    // differences of at most one: equal measures
    assert_eq!(sse_wxh(&sa, &sc, 4, 4), compute_fast_distortion(sa, sc, 4, 4));
    assert_eq!(sse_wxh(&sa, &sc, 4, 4), 8);
    // a difference of four: squared error exceeds it
    assert!(sse_wxh(&sa, &sf, 4, 4) > compute_fast_distortion(sa, sf, 4, 4));
    assert_eq!(sse_wxh(&sa, &sf, 4, 4), 4 * 16);
    assert_eq!(compute_fast_distortion(sa, sf, 4, 4), 4 * 4);
}
