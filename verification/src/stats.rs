//! What is known of a stored partition.
use vstd::prelude::*;

verus! {

/// The size of a partition, each figure only where the store counted it.
#[derive(Debug, Clone, Copy, PartialEq, Eq, Structural)]
pub struct PartitionStats {
    pub num_rows: Option<u64>,
    pub num_batches: Option<u64>,
    pub num_bytes: Option<u64>,
}

impl PartitionStats {
    pub fn new(num_rows: Option<u64>, num_batches: Option<u64>, num_bytes: Option<u64>) -> (r: Self)
        ensures
            r.num_rows == num_rows,
            r.num_batches == num_batches,
            r.num_bytes == num_bytes,
    {
        PartitionStats { num_rows, num_batches, num_bytes }
    }
}

} // verus!
