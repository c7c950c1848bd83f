use vstd::prelude::*;

verus! {

/// Transform sizes, in the order of the AV1 specification.
#[allow(non_camel_case_types)]
#[derive(Clone, Copy, Debug, PartialEq, Eq, Structural)]
pub enum TxSize {
    TX_4X4,
    TX_8X8,
    TX_16X16,
    TX_32X32,
    TX_64X64,
    TX_4X8,
    TX_8X4,
    TX_8X16,
    TX_16X8,
    TX_16X32,
    TX_32X16,
    TX_32X64,
    TX_64X32,
    TX_4X16,
    TX_16X4,
    TX_8X32,
    TX_32X8,
    TX_16X64,
    TX_64X16,
}

/// Number of transform sizes.
pub const TX_SIZES_ALL: usize = 19;

/// Position of a transform size in the AV1 order, the row it owns in every
/// per-transform-size table.
pub open spec fn tx_size_index(ts: TxSize) -> int {
    match ts {
        TxSize::TX_4X4 => 0,
        TxSize::TX_8X8 => 1,
        TxSize::TX_16X16 => 2,
        TxSize::TX_32X32 => 3,
        TxSize::TX_64X64 => 4,
        TxSize::TX_4X8 => 5,
        TxSize::TX_8X4 => 6,
        TxSize::TX_8X16 => 7,
        TxSize::TX_16X8 => 8,
        TxSize::TX_16X32 => 9,
        TxSize::TX_32X16 => 10,
        TxSize::TX_32X64 => 11,
        TxSize::TX_64X32 => 12,
        TxSize::TX_4X16 => 13,
        TxSize::TX_16X4 => 14,
        TxSize::TX_8X32 => 15,
        TxSize::TX_32X8 => 16,
        TxSize::TX_16X64 => 17,
        TxSize::TX_64X16 => 18,
    }
}

/// Width in pixels of a transform size.
pub open spec fn tx_width(ts: TxSize) -> int {
    match ts {
        TxSize::TX_4X4 | TxSize::TX_4X8 | TxSize::TX_4X16 => 4,
        TxSize::TX_8X8 | TxSize::TX_8X4 | TxSize::TX_8X16 | TxSize::TX_8X32 => 8,
        TxSize::TX_16X16 | TxSize::TX_16X8 | TxSize::TX_16X32 | TxSize::TX_16X4
        | TxSize::TX_16X64 => 16,
        TxSize::TX_32X32 | TxSize::TX_32X16 | TxSize::TX_32X64 | TxSize::TX_32X8 => 32,
        TxSize::TX_64X64 | TxSize::TX_64X32 | TxSize::TX_64X16 => 64,
    }
}

/// Height in pixels of a transform size.
pub open spec fn tx_height(ts: TxSize) -> int {
    match ts {
        TxSize::TX_4X4 | TxSize::TX_8X4 | TxSize::TX_16X4 => 4,
        TxSize::TX_8X8 | TxSize::TX_4X8 | TxSize::TX_16X8 | TxSize::TX_32X8 => 8,
        TxSize::TX_16X16 | TxSize::TX_8X16 | TxSize::TX_32X16 | TxSize::TX_4X16
        | TxSize::TX_64X16 => 16,
        TxSize::TX_32X32 | TxSize::TX_16X32 | TxSize::TX_64X32 | TxSize::TX_8X32 => 32,
        TxSize::TX_64X64 | TxSize::TX_32X64 | TxSize::TX_16X64 => 64,
    }
}

impl TxSize {
    /// Row of this transform size in the per-transform-size tables.
    pub fn index(self) -> (i: usize)
        ensures
            i == tx_size_index(self),
            i < TX_SIZES_ALL,
    {
        match self {
            TxSize::TX_4X4 => 0,
            TxSize::TX_8X8 => 1,
            TxSize::TX_16X16 => 2,
            TxSize::TX_32X32 => 3,
            TxSize::TX_64X64 => 4,
            TxSize::TX_4X8 => 5,
            TxSize::TX_8X4 => 6,
            TxSize::TX_8X16 => 7,
            TxSize::TX_16X8 => 8,
            TxSize::TX_16X32 => 9,
            TxSize::TX_32X16 => 10,
            TxSize::TX_32X64 => 11,
            TxSize::TX_64X32 => 12,
            TxSize::TX_4X16 => 13,
            TxSize::TX_16X4 => 14,
            TxSize::TX_8X32 => 15,
            TxSize::TX_32X8 => 16,
            TxSize::TX_16X64 => 17,
            TxSize::TX_64X16 => 18,
        }
    }

    /// Width in pixels.
    pub fn width(self) -> (w: usize)
        ensures
            w == tx_width(self),
    {
        match self {
            TxSize::TX_4X4 | TxSize::TX_4X8 | TxSize::TX_4X16 => 4,
            TxSize::TX_8X8 | TxSize::TX_8X4 | TxSize::TX_8X16 | TxSize::TX_8X32 => 8,
            TxSize::TX_16X16 | TxSize::TX_16X8 | TxSize::TX_16X32 | TxSize::TX_16X4
            | TxSize::TX_16X64 => 16,
            TxSize::TX_32X32 | TxSize::TX_32X16 | TxSize::TX_32X64 | TxSize::TX_32X8 => 32,
            TxSize::TX_64X64 | TxSize::TX_64X32 | TxSize::TX_64X16 => 64,
        }
    }

    /// Height in pixels.
    pub fn height(self) -> (h: usize)
        ensures
            h == tx_height(self),
    {
        match self {
            TxSize::TX_4X4 | TxSize::TX_8X4 | TxSize::TX_16X4 => 4,
            TxSize::TX_8X8 | TxSize::TX_4X8 | TxSize::TX_16X8 | TxSize::TX_32X8 => 8,
            TxSize::TX_16X16 | TxSize::TX_8X16 | TxSize::TX_32X16 | TxSize::TX_4X16
            | TxSize::TX_64X16 => 16,
            TxSize::TX_32X32 | TxSize::TX_16X32 | TxSize::TX_64X32 | TxSize::TX_8X32 => 32,
            TxSize::TX_64X64 | TxSize::TX_32X64 | TxSize::TX_16X64 => 64,
        }
    }
}

/// Block sizes, in the order of the AV1 specification; `BLOCK_INVALID` last.
#[allow(non_camel_case_types)]
#[derive(Clone, Copy, Debug, PartialEq, Eq, Structural)]
pub enum BlockSize {
    BLOCK_4X4,
    BLOCK_4X8,
    BLOCK_8X4,
    BLOCK_8X8,
    BLOCK_8X16,
    BLOCK_16X8,
    BLOCK_16X16,
    BLOCK_16X32,
    BLOCK_32X16,
    BLOCK_32X32,
    BLOCK_32X64,
    BLOCK_64X32,
    BLOCK_64X64,
    BLOCK_64X128,
    BLOCK_128X64,
    BLOCK_128X128,
    BLOCK_4X16,
    BLOCK_16X4,
    BLOCK_8X32,
    BLOCK_32X8,
    BLOCK_16X64,
    BLOCK_64X16,
    BLOCK_INVALID,
}

/// Position of a block size in the AV1 order (the order that `<` on block
/// sizes follows).
pub open spec fn block_size_index(b: BlockSize) -> int {
    match b {
        BlockSize::BLOCK_4X4 => 0,
        BlockSize::BLOCK_4X8 => 1,
        BlockSize::BLOCK_8X4 => 2,
        BlockSize::BLOCK_8X8 => 3,
        BlockSize::BLOCK_8X16 => 4,
        BlockSize::BLOCK_16X8 => 5,
        BlockSize::BLOCK_16X16 => 6,
        BlockSize::BLOCK_16X32 => 7,
        BlockSize::BLOCK_32X16 => 8,
        BlockSize::BLOCK_32X32 => 9,
        BlockSize::BLOCK_32X64 => 10,
        BlockSize::BLOCK_64X32 => 11,
        BlockSize::BLOCK_64X64 => 12,
        BlockSize::BLOCK_64X128 => 13,
        BlockSize::BLOCK_128X64 => 14,
        BlockSize::BLOCK_128X128 => 15,
        BlockSize::BLOCK_4X16 => 16,
        BlockSize::BLOCK_16X4 => 17,
        BlockSize::BLOCK_8X32 => 18,
        BlockSize::BLOCK_32X8 => 19,
        BlockSize::BLOCK_16X64 => 20,
        BlockSize::BLOCK_64X16 => 21,
        BlockSize::BLOCK_INVALID => 22,
    }
}

/// Width in pixels of a valid block size.
pub open spec fn block_width(b: BlockSize) -> int {
    match b {
        BlockSize::BLOCK_4X4 => 4,
        BlockSize::BLOCK_4X8 => 4,
        BlockSize::BLOCK_8X4 => 8,
        BlockSize::BLOCK_8X8 => 8,
        BlockSize::BLOCK_8X16 => 8,
        BlockSize::BLOCK_16X8 => 16,
        BlockSize::BLOCK_16X16 => 16,
        BlockSize::BLOCK_16X32 => 16,
        BlockSize::BLOCK_32X16 => 32,
        BlockSize::BLOCK_32X32 => 32,
        BlockSize::BLOCK_32X64 => 32,
        BlockSize::BLOCK_64X32 => 64,
        BlockSize::BLOCK_64X64 => 64,
        BlockSize::BLOCK_64X128 => 64,
        BlockSize::BLOCK_128X64 => 128,
        BlockSize::BLOCK_128X128 => 128,
        BlockSize::BLOCK_4X16 => 4,
        BlockSize::BLOCK_16X4 => 16,
        BlockSize::BLOCK_8X32 => 8,
        BlockSize::BLOCK_32X8 => 32,
        BlockSize::BLOCK_16X64 => 16,
        BlockSize::BLOCK_64X16 => 64,
        BlockSize::BLOCK_INVALID => 0,
    }
}

/// Height in pixels of a valid block size.
pub open spec fn block_height(b: BlockSize) -> int {
    match b {
        BlockSize::BLOCK_4X4 => 4,
        BlockSize::BLOCK_4X8 => 8,
        BlockSize::BLOCK_8X4 => 4,
        BlockSize::BLOCK_8X8 => 8,
        BlockSize::BLOCK_8X16 => 16,
        BlockSize::BLOCK_16X8 => 8,
        BlockSize::BLOCK_16X16 => 16,
        BlockSize::BLOCK_16X32 => 32,
        BlockSize::BLOCK_32X16 => 16,
        BlockSize::BLOCK_32X32 => 32,
        BlockSize::BLOCK_32X64 => 64,
        BlockSize::BLOCK_64X32 => 32,
        BlockSize::BLOCK_64X64 => 64,
        BlockSize::BLOCK_64X128 => 128,
        BlockSize::BLOCK_128X64 => 64,
        BlockSize::BLOCK_128X128 => 128,
        BlockSize::BLOCK_4X16 => 16,
        BlockSize::BLOCK_16X4 => 4,
        BlockSize::BLOCK_8X32 => 32,
        BlockSize::BLOCK_32X8 => 8,
        BlockSize::BLOCK_16X64 => 64,
        BlockSize::BLOCK_64X16 => 16,
        BlockSize::BLOCK_INVALID => 0,
    }
}

impl BlockSize {
    /// Position in the AV1 order.
    pub fn index(self) -> (i: usize)
        ensures
            i == block_size_index(self),
    {
        match self {
            BlockSize::BLOCK_4X4 => 0,
            BlockSize::BLOCK_4X8 => 1,
            BlockSize::BLOCK_8X4 => 2,
            BlockSize::BLOCK_8X8 => 3,
            BlockSize::BLOCK_8X16 => 4,
            BlockSize::BLOCK_16X8 => 5,
            BlockSize::BLOCK_16X16 => 6,
            BlockSize::BLOCK_16X32 => 7,
            BlockSize::BLOCK_32X16 => 8,
            BlockSize::BLOCK_32X32 => 9,
            BlockSize::BLOCK_32X64 => 10,
            BlockSize::BLOCK_64X32 => 11,
            BlockSize::BLOCK_64X64 => 12,
            BlockSize::BLOCK_64X128 => 13,
            BlockSize::BLOCK_128X64 => 14,
            BlockSize::BLOCK_128X128 => 15,
            BlockSize::BLOCK_4X16 => 16,
            BlockSize::BLOCK_16X4 => 17,
            BlockSize::BLOCK_8X32 => 18,
            BlockSize::BLOCK_32X8 => 19,
            BlockSize::BLOCK_16X64 => 20,
            BlockSize::BLOCK_64X16 => 21,
            BlockSize::BLOCK_INVALID => 22,
        }
    }


    /// Width in pixels.
    pub fn width(self) -> (v: usize)
        requires
            self != BlockSize::BLOCK_INVALID,
        ensures
            v == block_width(self),
    {
        match self {
            BlockSize::BLOCK_4X4 => 4,
            BlockSize::BLOCK_4X8 => 4,
            BlockSize::BLOCK_8X4 => 8,
            BlockSize::BLOCK_8X8 => 8,
            BlockSize::BLOCK_8X16 => 8,
            BlockSize::BLOCK_16X8 => 16,
            BlockSize::BLOCK_16X16 => 16,
            BlockSize::BLOCK_16X32 => 16,
            BlockSize::BLOCK_32X16 => 32,
            BlockSize::BLOCK_32X32 => 32,
            BlockSize::BLOCK_32X64 => 32,
            BlockSize::BLOCK_64X32 => 64,
            BlockSize::BLOCK_64X64 => 64,
            BlockSize::BLOCK_64X128 => 64,
            BlockSize::BLOCK_128X64 => 128,
            BlockSize::BLOCK_128X128 => 128,
            BlockSize::BLOCK_4X16 => 4,
            BlockSize::BLOCK_16X4 => 16,
            BlockSize::BLOCK_8X32 => 8,
            BlockSize::BLOCK_32X8 => 32,
            BlockSize::BLOCK_16X64 => 16,
            BlockSize::BLOCK_64X16 => 64,
            BlockSize::BLOCK_INVALID => 0,
        }
    }

    /// Height in pixels.
    pub fn height(self) -> (v: usize)
        requires
            self != BlockSize::BLOCK_INVALID,
        ensures
            v == block_height(self),
    {
        match self {
            BlockSize::BLOCK_4X4 => 4,
            BlockSize::BLOCK_4X8 => 8,
            BlockSize::BLOCK_8X4 => 4,
            BlockSize::BLOCK_8X8 => 8,
            BlockSize::BLOCK_8X16 => 16,
            BlockSize::BLOCK_16X8 => 8,
            BlockSize::BLOCK_16X16 => 16,
            BlockSize::BLOCK_16X32 => 32,
            BlockSize::BLOCK_32X16 => 16,
            BlockSize::BLOCK_32X32 => 32,
            BlockSize::BLOCK_32X64 => 64,
            BlockSize::BLOCK_64X32 => 32,
            BlockSize::BLOCK_64X64 => 64,
            BlockSize::BLOCK_64X128 => 128,
            BlockSize::BLOCK_128X64 => 64,
            BlockSize::BLOCK_128X128 => 128,
            BlockSize::BLOCK_4X16 => 16,
            BlockSize::BLOCK_16X4 => 4,
            BlockSize::BLOCK_8X32 => 32,
            BlockSize::BLOCK_32X8 => 8,
            BlockSize::BLOCK_16X64 => 64,
            BlockSize::BLOCK_64X16 => 16,
            BlockSize::BLOCK_INVALID => 0,
        }
    }

    /// Width in units of the smallest block (`MI_SIZE` pixels).
    pub fn width_mi(self) -> (v: usize)
        requires
            self != BlockSize::BLOCK_INVALID,
        ensures
            v == block_width(self) / 4,
    {
        self.width() / 4
    }
}

/// Ways of partitioning a block, in the order of the AV1 specification.
#[allow(non_camel_case_types)]
#[derive(Clone, Copy, Debug, PartialEq, Eq, Structural)]
pub enum PartitionType {
    PARTITION_NONE,
    PARTITION_HORZ,
    PARTITION_VERT,
    PARTITION_SPLIT,
    PARTITION_HORZ_A,
    PARTITION_HORZ_B,
    PARTITION_VERT_A,
    PARTITION_VERT_B,
    PARTITION_HORZ_4,
    PARTITION_VERT_4,
    PARTITION_INVALID,
}

/// Position of a block, in units of the smallest block.
#[derive(Clone, Copy, Debug, PartialEq, Eq, Structural)]
pub struct BlockOffset {
    pub x: usize,
    pub y: usize,
}

/// Size of each quarter of a block split in four; `BLOCK_INVALID` where the
/// block cannot be split so.
pub open spec fn spec_split_subsize(bsize: BlockSize) -> BlockSize {
    match bsize {
        BlockSize::BLOCK_8X8 => BlockSize::BLOCK_4X4,
        BlockSize::BLOCK_16X16 => BlockSize::BLOCK_8X8,
        BlockSize::BLOCK_32X32 => BlockSize::BLOCK_16X16,
        BlockSize::BLOCK_64X64 => BlockSize::BLOCK_32X32,
        BlockSize::BLOCK_128X128 => BlockSize::BLOCK_64X64,
        _ => BlockSize::BLOCK_INVALID,
    }
}

/// The size of the quarters of a block split in four.
pub fn split_subsize(bsize: BlockSize) -> (s: BlockSize)
    ensures
        s == spec_split_subsize(bsize),
{
    match bsize {
        BlockSize::BLOCK_8X8 => BlockSize::BLOCK_4X4,
        BlockSize::BLOCK_16X16 => BlockSize::BLOCK_8X8,
        BlockSize::BLOCK_32X32 => BlockSize::BLOCK_16X16,
        BlockSize::BLOCK_64X64 => BlockSize::BLOCK_32X32,
        BlockSize::BLOCK_128X128 => BlockSize::BLOCK_64X64,
        _ => BlockSize::BLOCK_INVALID,
    }
}

/// Superblock size in units of the smallest block (64 pixels over `MI_SIZE`).
pub const SB_SIZE_IN_MI: usize = 16;

/// Position of a 64x64 superblock, in superblocks.
#[derive(Clone, Copy, Debug, PartialEq, Eq, Structural)]
pub struct SuperBlockOffset {
    pub x: usize,
    pub y: usize,
}

impl SuperBlockOffset {
    /// Offset of the block `block_x`, `block_y` smallest blocks into the
    /// superblock.
    pub fn block_offset(self, block_x: usize, block_y: usize) -> (bo: BlockOffset)
        requires
            self.x * 16 + block_x <= usize::MAX,
            self.y * 16 + block_y <= usize::MAX,
        ensures
            bo.x == self.x * 16 + block_x,
            bo.y == self.y * 16 + block_y,
    {
        BlockOffset { x: self.x * SB_SIZE_IN_MI + block_x, y: self.y * SB_SIZE_IN_MI + block_y }
    }
}

} // verus!
