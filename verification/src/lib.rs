//! Rate-distortion optimisation support for an AV1 encoder: statistics of
//! rate and distortion per transform size, trained estimates read from them,
//! block distortion measures, and the integer decisions of the mode,
//! partition, chroma-from-luma and CDEF searches.

pub mod partition;
pub mod plane;
pub mod predict;
pub mod rdo;
pub mod tables;
pub mod tracker;
pub mod tracker_laws;
