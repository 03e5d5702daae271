//! The commands of the performance test program.
use vstd::prelude::*;

verus! {

/// The commands of the performance test program.
#[derive(Debug, PartialEq, Eq, Structural)]
pub enum Command {
    /// Test database read performance by repeatedly counting the number of rows in a given
    /// table.
    TestReadPerf {
        table_size: usize,
        fetches: usize,
        edit_rate: usize,
        fail_after_secs: u64,
        /// Overwrite an existing database
        force: bool,
    },
}

} // verus!
