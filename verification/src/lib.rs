//! Host-metrics sampling: per-core CPU load and clock speed and the
//! temperature of the CPU cores, stamped with the time of capture, kept in
//! append-only buffers and laid out as comma-separated tables.
//!
//! The crate holds the rules of the sampler and proves them; reading the
//! sensors and the clock and encoding a table row are left to `sysinfo`,
//! `chrono`, `ryu` and `csv`, behind small trusted functions.

pub mod decimal;
pub mod format;
pub mod host;
pub mod label;
pub mod metric;
pub mod sampler;
pub mod schedule;
pub mod sensor;
pub mod table;

pub use host::HostSensors;
pub use metric::{CPUMetric, ComponentReading, CpuReading, Temperature};
pub use sampler::{Monitor, TemperatureLog};
pub use schedule::{Action, Event, LoopState, SamplingLoop};
pub use sensor::SensorSource;
pub use table::{dump_csv, Record};
