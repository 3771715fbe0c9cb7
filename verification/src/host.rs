//! The sensors of the machine the program runs on, and its clock.
//!
//! Everything here that touches `sysinfo`, `ryu` or `chrono` is trusted, not
//! proved. What a refresh reads and what the clock shows depend on the
//! machine and the moment, and nothing is promised of them. One thing is:
//! a handle keeps what it read last, and listing hands out just that.

use vstd::prelude::*;
use sysinfo::{ComponentExt, CpuExt, SystemExt};
use crate::metric::{ComponentReading, ComponentReadingView, CpuReading, CpuReadingView};
use crate::sensor::SensorSource;

verus! {

/// `sysinfo::System`, the handle through which `sysinfo` reads the machine.
/// Opaque here: it is only created, refreshed and listed.
#[verifier::external_type_specification]
#[verifier::external_body]
pub struct ExSystem(sysinfo::System);

/// `SystemExt::new_all`: a handle with everything loaded once.
#[verifier::external_body]
fn system_new_all() -> sysinfo::System {
    sysinfo::System::new_all()
}

/// `SystemExt::refresh_cpu`: reads the load of every logical CPU again. It
/// is `SystemExt::refresh_cpu_specifics` asked for the load alone. On a
/// machine whose `/proc` is not what `sysinfo` expects, or where a CPU comes
/// online during the run, `sysinfo` may panic here.
#[verifier::external_body]
fn system_refresh_cpu(sys: &mut sysinfo::System) {
    sys.refresh_cpu();
}

/// `SystemExt::refresh_cpu_specifics`, asked for the clock speed alone.
/// `sysinfo` may panic here as in [`system_refresh_cpu`].
#[verifier::external_body]
fn system_refresh_cpu_frequency(sys: &mut sysinfo::System) {
    sys.refresh_cpu_specifics(sysinfo::CpuRefreshKind::new().with_frequency());
}

/// `SystemExt::refresh_components`: reads every known thermal sensor again.
#[verifier::external_body]
fn system_refresh_components(sys: &mut sysinfo::System) {
    sys.refresh_components();
}

/// The readings of the logical CPUs that a handle holds, in its order:
/// what it read when it was last refreshed.
pub uninterp spec fn held_cpus(sys: sysinfo::System) -> Seq<CpuReadingView>;

/// The readings of the thermal sensors that a handle holds, in its order:
/// what it read when it was last refreshed.
pub uninterp spec fn held_components(sys: sysinfo::System) -> Seq<ComponentReadingView>;

/// `SystemExt::cpus`, each entry handed out as plain values: its
/// `CpuExt::name`, its `CpuExt::cpu_usage` in the shortest decimal notation
/// that `ryu::Buffer::format` finds for it, and its `CpuExt::frequency`.
///
/// Trusted: the list depends on the handle alone. `sysinfo` reads nothing
/// here; it hands out the values that the last refresh stored.
#[verifier::external_body]
fn system_cpus(sys: &sysinfo::System) -> (found: Vec<CpuReading>)
    ensures
        found.deep_view() == held_cpus(*sys),
{
    sys.cpus()
        .iter()
        .map(|cpu| CpuReading {
            label: cpu.name().to_string(),
            usage: ryu::Buffer::new().format(cpu.cpu_usage()).to_string(),
            frequency: cpu.frequency(),
        })
        .collect()
}

/// `SystemExt::components`, each entry handed out as plain values: its
/// `ComponentExt::label` and its `ComponentExt::temperature` in the shortest
/// decimal notation that `ryu::Buffer::format` finds for it.
///
/// Trusted: the list depends on the handle alone. `sysinfo` reads nothing
/// here; it hands out the values that the last refresh stored.
#[verifier::external_body]
fn system_components(sys: &sysinfo::System) -> (found: Vec<ComponentReading>)
    ensures
        found.deep_view() == held_components(*sys),
{
    sys.components()
        .iter()
        .map(|component| ComponentReading {
            label: component.label().to_string(),
            temperature: ryu::Buffer::new().format(component.temperature()).to_string(),
        })
        .collect()
}

/// `chrono::Local::now`, rendered by its `Display`: the local date, time and
/// offset from UTC at the moment of the call. `chrono` panics when the
/// system clock stands before 1970.
#[verifier::external_body]
pub(crate) fn wall_clock() -> (now: String) {
    chrono::Local::now().to_string()
}

/// The sensors of this machine, read through `sysinfo`.
pub struct HostSensors {
    sys: sysinfo::System,
    cpu_refreshes: Ghost<nat>,
    component_refreshes: Ghost<nat>,
}

impl HostSensors {
    /// Opens the sensors. `sysinfo` loads everything once as it does so;
    /// no refresh has been asked for yet.
    pub fn new() -> (sensors: HostSensors)
        ensures
            sensors.cpu_refreshes() == 0,
            sensors.component_refreshes() == 0,
    {
        HostSensors {
            sys: system_new_all(),
            cpu_refreshes: Ghost(0),
            component_refreshes: Ghost(0),
        }
    }
}

impl SensorSource for HostSensors {
    closed spec fn held_cpu_readings(&self) -> Seq<CpuReadingView> {
        held_cpus(self.sys)
    }

    closed spec fn held_component_readings(&self) -> Seq<ComponentReadingView> {
        held_components(self.sys)
    }

    closed spec fn cpu_refreshes(&self) -> nat {
        self.cpu_refreshes@
    }

    closed spec fn component_refreshes(&self) -> nat {
        self.component_refreshes@
    }

    /// Load and clock speed are refreshed one after the other: `sysinfo`
    /// offers them as facets of their own.
    fn refresh_cpu(&mut self) {
        system_refresh_cpu(&mut self.sys);
        system_refresh_cpu_frequency(&mut self.sys);
        self.cpu_refreshes = Ghost((self.cpu_refreshes@ + 1) as nat);
    }

    fn refresh_components(&mut self) {
        system_refresh_components(&mut self.sys);
        self.component_refreshes = Ghost((self.component_refreshes@ + 1) as nat);
    }

    fn list_cpus(&self) -> (found: Vec<CpuReading>) {
        system_cpus(&self.sys)
    }

    fn list_components(&self) -> (found: Vec<ComponentReading>) {
        system_components(&self.sys)
    }
}

} // verus!
