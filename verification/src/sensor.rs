//! The capability that the sampler reads from.

use vstd::prelude::*;
use crate::metric::{ComponentReading, ComponentReadingView, CpuReading, CpuReadingView};

verus! {

/// Access to the CPU and thermal sensors of a machine.
///
/// A source caches what it read last: a `refresh_*` call makes it read again,
/// a `list_*` call hands out what it holds and reads nothing. What a refresh
/// finds is for the machine to say and nothing is promised of it; a source
/// that cannot produce readings holds none, and that is no error.
///
/// A source keeps count of its refreshes, so that a caller can state that it
/// asked for one, and which listing came after it. What a source holds and
/// how often it was refreshed are for each source to define; for one that
/// does not, they are left unspecified.
pub trait SensorSource {
    /// The CPU readings that the source holds: what its last refresh of the
    /// CPUs found, one per logical CPU, in the order of the source.
    open spec fn held_cpu_readings(&self) -> Seq<CpuReadingView> {
        arbitrary()
    }

    /// The thermal readings that the source holds: what its last refresh of
    /// the components found, one per sensor that was detected.
    open spec fn held_component_readings(&self) -> Seq<ComponentReadingView> {
        arbitrary()
    }

    /// How often the CPUs were refreshed.
    open spec fn cpu_refreshes(&self) -> nat {
        arbitrary()
    }

    /// How often the components were refreshed.
    open spec fn component_refreshes(&self) -> nat {
        arbitrary()
    }

    /// Reads the load and the clock speed of every logical CPU again.
    fn refresh_cpu(&mut self)
        ensures
            final(self).cpu_refreshes() == old(self).cpu_refreshes() + 1,
            final(self).component_refreshes() == old(self).component_refreshes(),
    ;

    /// Reads every thermal sensor again.
    fn refresh_components(&mut self)
        ensures
            final(self).component_refreshes() == old(self).component_refreshes() + 1,
            final(self).cpu_refreshes() == old(self).cpu_refreshes(),
    ;

    /// Hands out the CPU readings that are held; nothing is read anew.
    fn list_cpus(&self) -> (found: Vec<CpuReading>)
        ensures
            found.deep_view() == self.held_cpu_readings(),
    ;

    /// Hands out the thermal readings that are held; nothing is read anew.
    fn list_components(&self) -> (found: Vec<ComponentReading>)
        ensures
            found.deep_view() == self.held_component_readings(),
    ;
}

} // verus!
