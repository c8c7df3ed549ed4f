//! Bookkeeping for performance testing: the durations of chunk
//! generation and mesh building, recorded in microseconds by the
//! caller that measured them.

use vstd::prelude::*;

verus! {

/// Helper struct for timing chunk and mesh generation performance.
/// Each entry is one measured run, in microseconds.
pub struct Timings {
    pub generate_chunk: Vec<u64>,
    pub build_mesh: Vec<u64>,
}

impl Timings {
    /// Creates an empty record.
    pub fn new() -> (r: Self)
        ensures
            r.generate_chunk@ == Seq::<u64>::empty(),
            r.build_mesh@ == Seq::<u64>::empty(),
    {
        Self { generate_chunk: Vec::new(), build_mesh: Vec::new() }
    }
}

} // verus!
