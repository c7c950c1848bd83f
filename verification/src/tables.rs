use vstd::prelude::*;

verus! {

/// Number of bins of each per-transform-size row of the statistics tables.
pub const RDO_NUM_BINS: usize = 50;

/// Upper end of the fast-distortion range binned for distortion estimation.
pub const RDO_MAX_BIN: usize = 10000;

/// Upper end of the fast-distortion range binned for rate estimation.
pub const RATE_EST_MAX_BIN: usize = 50000;

/// Width of a distortion bin (`RDO_MAX_BIN / RDO_NUM_BINS`).
pub const RDO_BIN_SIZE: u64 = 200;

/// Width of a rate bin (`RATE_EST_MAX_BIN / RDO_NUM_BINS`).
pub const RATE_EST_BIN_SIZE: u64 = 1000;

/// Number of transform sizes with trained estimates: the square ones from
/// 4x4 to 32x32, the first four in transform-size order. Every other
/// transform size estimates zero.
pub const TRAINED_TX_SIZES: usize = 4;

/// Trained distortion estimates: for each distortion bin, the estimate of
/// each trained transform size (4x4, 8x8, 16x16, 32x32).
pub const TRAINED_DISTORTION: [[u64; 4]; 50] = [
    [91, 175, 194, 0],
    [208, 398, 362, 0],
    [251, 556, 711, 592],
    [270, 657, 1069, 824],
    [285, 726, 1189, 1056],
    [300, 778, 1375, 1282],
    [312, 816, 1564, 1724],
    [316, 840, 1722, 1768],
    [308, 859, 1865, 1967],
    [315, 873, 1992, 2541],
    [313, 885, 2118, 2953],
    [308, 891, 2234, 3255],
    [301, 896, 2345, 3684],
    [290, 898, 2459, 4184],
    [303, 901, 2544, 4253],
    [360, 902, 2621, 4298],
    [446, 898, 2682, 4391],
    [434, 902, 2760, 4439],
    [0, 904, 2827, 4531],
    [0, 907, 2876, 4794],
    [0, 905, 2954, 4830],
    [0, 908, 3016, 5052],
    [0, 902, 3065, 5156],
    [0, 894, 3115, 5287],
    [0, 885, 3161, 5530],
    [0, 884, 3201, 5701],
    [0, 888, 3245, 5999],
    [0, 887, 3276, 5989],
    [0, 887, 3323, 6101],
    [0, 879, 3356, 6262],
    [0, 878, 3394, 6376],
    [0, 867, 3413, 6546],
    [0, 862, 3448, 6707],
    [0, 868, 3456, 6923],
    [0, 863, 3482, 7046],
    [0, 861, 3514, 7033],
    [0, 866, 3529, 7286],
    [0, 854, 3541, 7252],
    [0, 840, 3561, 7513],
    [0, 805, 3577, 7701],
    [0, 807, 3588, 7601],
    [0, 838, 3615, 7769],
    [0, 813, 3613, 7901],
    [0, 766, 3623, 8022],
    [0, 747, 3628, 8142],
    [0, 774, 3639, 8293],
    [0, 729, 3643, 8413],
    [0, 775, 3660, 8503],
    [0, 748, 3645, 8580],
    [0, 685, 3675, 13023],
];

/// Trained rate estimates, in 1/8 bit: for each rate bin, the estimate of
/// each trained transform size (4x4, 8x8, 16x16, 32x32).
pub const TRAINED_RATE: [[u64; 4]; 50] = [
    [573, 0, 0, 0],
    [715, 1472, 1490, 435],
    [691, 1714, 2350, 936],
    [1246, 1790, 3079, 1661],
    [0, 1742, 3771, 2458],
    [0, 1689, 4353, 3170],
    [0, 1645, 4769, 4008],
    [0, 1548, 5095, 4694],
    [0, 1407, 5358, 5391],
    [0, 1406, 5547, 6116],
    [0, 1224, 5728, 6739],
    [0, 1029, 5890, 7526],
    [0, 1557, 5955, 8085],
    [0, 0, 5976, 8689],
    [0, 0, 5958, 9307],
    [0, 0, 5945, 9828],
    [0, 0, 5866, 10492],
    [0, 0, 5765, 11121],
    [0, 0, 5735, 11576],
    [0, 0, 5609, 12150],
    [0, 0, 5513, 12753],
    [0, 0, 5337, 13372],
    [0, 0, 5343, 13847],
    [0, 0, 5317, 14350],
    [0, 0, 5077, 14756],
    [0, 0, 5091, 15277],
    [0, 0, 4798, 15530],
    [0, 0, 4810, 16139],
    [0, 0, 4919, 16304],
    [0, 0, 4978, 16883],
    [0, 0, 4499, 17338],
    [0, 0, 4578, 17591],
    [0, 0, 4484, 17911],
    [0, 0, 4168, 17975],
    [0, 0, 4248, 18332],
    [0, 0, 4373, 18309],
    [0, 0, 3657, 18669],
    [0, 0, 3882, 18997],
    [0, 0, 4085, 19150],
    [0, 0, 4016, 19455],
    [0, 0, 3690, 19542],
    [0, 0, 4427, 19460],
    [0, 0, 4146, 19672],
    [0, 0, 4484, 19817],
    [0, 0, 3983, 20172],
    [0, 0, 3234, 20048],
    [0, 0, 3006, 20334],
    [0, 0, 0, 20321],
    [0, 0, 0, 20405],
    [180, 212, 129, 20090],
];

/// The distortion estimate of the transform size in row `row` for bin `bin`.
pub open spec fn distortion_table(row: int, bin: int) -> u64 {
    if row < TRAINED_TX_SIZES {
        TRAINED_DISTORTION@[bin]@[row]
    } else {
        0
    }
}

/// The rate estimate of the transform size in row `row` for bin `bin`.
pub open spec fn rate_table(row: int, bin: int) -> u64 {
    if row < TRAINED_TX_SIZES {
        TRAINED_RATE@[bin]@[row]
    } else {
        0
    }
}

/// Reads the distortion estimates.
pub fn distortion_table_entry(row: usize, bin: usize) -> (v: u64)
    requires
        bin < RDO_NUM_BINS,
    ensures
        v == distortion_table(row as int, bin as int),
        row < TRAINED_TX_SIZES ==> v == TRAINED_DISTORTION@[bin as int]@[row as int],
        row >= TRAINED_TX_SIZES ==> v == 0,
{
    if row < TRAINED_TX_SIZES {
        TRAINED_DISTORTION[bin][row]
    } else {
        0
    }
}

/// Reads the rate estimates.
pub fn rate_table_entry(row: usize, bin: usize) -> (v: u64)
    requires
        bin < RDO_NUM_BINS,
    ensures
        v == rate_table(row as int, bin as int),
        row < TRAINED_TX_SIZES ==> v == TRAINED_RATE@[bin as int]@[row as int],
        row >= TRAINED_TX_SIZES ==> v == 0,
{
    if row < TRAINED_TX_SIZES {
        TRAINED_RATE[bin][row]
    } else {
        0
    }
}

} // verus!
