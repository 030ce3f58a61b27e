//! Reading a sample out of the telemetry source.
//!
//! The source is a `sysinfo::System`. Refreshing it is left to the caller;
//! this module turns what it holds after a refresh into a [`Sample`].

use crate::sample::{Sample, RATIO_ONE};
use crate::units::{percent_to_ratio, ratio_of_percent};
use sysinfo::System;
use vstd::prelude::*;

verus! {

/// `sysinfo::System`, the telemetry source. Nothing is known of it but what
/// the wrappers below say.
#[verifier::external_type_specification]
#[verifier::external_body]
pub struct ExSystem(sysinfo::System);

/// The usage of each processor that `system` holds since its last refresh,
/// in percent, as binary32 patterns, by the processor's index.
pub uninterp spec fn cpu_usages(system: System) -> Seq<u32>;

/// The usage of all processors together that `system` holds since its last
/// refresh, in percent, as a binary32 pattern.
pub uninterp spec fn global_usage(system: System) -> u32;

/// The length of the slice that `System::cpus` returns: the number of
/// processors that the source holds.
#[verifier::external_body]
fn cpu_count(system: &System) -> (n: usize)
    ensures
        n == cpu_usages(*system).len(),
{
    system.cpus().len()
}

/// What `Cpu::cpu_usage` returns for processor `i` of `System::cpus`, as its
/// bit pattern. The index must be within the slice.
#[verifier::external_body]
fn cpu_usage_bits(system: &System, i: usize) -> (bits: u32)
    requires
        i < cpu_usages(*system).len(),
    ensures
        bits == cpu_usages(*system)[i as int],
{
    system.cpus()[i].cpu_usage().to_bits()
}

/// What `System::global_cpu_usage` returns, as its bit pattern.
#[verifier::external_body]
fn global_usage_bits(system: &System) -> (bits: u32)
    ensures
        bits == global_usage(*system),
{
    system.global_cpu_usage().to_bits()
}

/// The sample that `system` holds since its last refresh: one ratio per
/// processor, in the source's order, and the aggregate.
pub fn read_sample(system: &System) -> (sample: Sample)
    ensures
        sample@.aggregate == ratio_of_percent(global_usage(*system)),
        sample@.cores.len() == cpu_usages(*system).len(),
        forall|i: int|
            0 <= i < sample@.cores.len() ==> #[trigger] sample@.cores[i] == ratio_of_percent(
                cpu_usages(*system)[i],
            ),
{
    let count: usize = cpu_count(system);
    let mut cores: Vec<u32> = Vec::new();
    let mut i: usize = 0;
    while i < count
        invariant
            i <= count,
            count == cpu_usages(*system).len(),
            cores@.len() == i,
            forall|j: int|
                0 <= j < i ==> #[trigger] cores@[j] == ratio_of_percent(cpu_usages(*system)[j])
                    && cores@[j] <= RATIO_ONE,
        decreases count - i,
    {
        cores.push(percent_to_ratio(cpu_usage_bits(system, i)));
        i = i + 1;
    }
    Sample::new(percent_to_ratio(global_usage_bits(system)), cores)
}

} // verus!
