//! The processing units of the machine, which size the worker pool.

use vstd::prelude::*;

verus! {

/// The processing units found at startup.
pub struct Processors {
    /// Logical units: the size of the worker pool.
    pub logical: usize,
    /// Physical cores: reported beside the pool size, never used to decide anything.
    pub physical: usize,
}

/// Calls `num_cpus::get`, whose documentation promises the number of logical
/// cores available to this process and that it is never less than one. The
/// lower bound is all that is claimed here, and it is taken on trust.
#[verifier::external_body]
fn logical_cpus() -> (count: usize)
    ensures
        count >= 1,
{
    num_cpus::get()
}

/// Calls `num_cpus::get_physical`, whose documentation promises the number of
/// physical cores, or the logical count where that cannot be found, and that
/// it is never less than one. The lower bound is all that is claimed here,
/// and it is taken on trust.
#[verifier::external_body]
fn physical_cpus() -> (count: usize)
    ensures
        count >= 1,
{
    num_cpus::get_physical()
}

impl Processors {
    /// Asks the machine for its logical and physical processing units.
    /// Whatever the machine answers, each count is at least one.
    pub fn detect() -> (found: Processors)
        ensures
            found.logical >= 1,
            found.physical >= 1,
    {
        let logical: usize = logical_cpus();
        let physical: usize = physical_cpus();
        Processors { logical, physical }
    }
}

} // verus!
