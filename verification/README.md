# rdo

Rate-distortion optimisation support for an AV1 encoder, with machine-checked
contracts.

- `src/tracker.rs`: `RDOTracker`, the rate and distortion statistics per
  transform size and bin of fast distortion; recording, merging, averaging,
  reading out and rebuilding, and the trained rate and distortion estimates.
- `src/tracker_laws.rs`: laws of the statistics (merging is commutative and
  associative with the fresh tracker as identity, recording commutes with
  merging, merging two trackers equals one fed both sample streams, every
  sample is counted once) and of the rate interpolation.
- `src/tables.rs`: the trained estimates.
- `src/plane.rs`: planes of pixels and block measures (sum of squared errors,
  sum of absolute differences, the integer moments of CDEF's metric).
- `src/rdo.rs`: the integer decisions of the searches: distortion of a coded
  block, chroma dimensions, chroma-from-luma and CDEF strength selection,
  CDEF's padded input and per-strength error, partition candidates.
- `src/partition.rs`, `src/predict.rs`: transform and block sizes, partitions,
  prediction modes, motion vectors, chroma-from-luma parameters.
- `app/`: the floating-point costs, the text reports, serialisation, and the
  searches that drive an encoder's block coder.
