//! Facts about the machine the library runs on.

use vstd::prelude::*;

verus! {

/// `num_cpus::get()`: the number of logical CPUs this process may use, which
/// the crate documents as always at least one.
#[verifier::external_body]
pub fn available_cpus() -> (n: usize)
    ensures
        n >= 1,
{
    num_cpus::get()
}

/// Two workers for each of `cpus` CPUs, as many as a `usize` holds.
pub open spec fn two_per_cpu(cpus: usize) -> int {
    if cpus <= usize::MAX / 2 { 2 * cpus } else { usize::MAX as int }
}

} // verus!
