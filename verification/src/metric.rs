//! The records of the two metric kinds and the raw readings they are made of.
//!
//! A measured value (a load percentage, a temperature) is carried in decimal
//! notation, exactly as the sensor source rendered it: the sampler never
//! computes with it, it only passes it through to the table.

use vstd::prelude::*;

verus! {

/// What a sensor source reports for one logical CPU.
#[derive(Debug, PartialEq, Eq)]
pub struct CpuReading {
    /// Name of the logical CPU, such as `cpu0`.
    pub label: String,
    /// Load percentage in decimal notation.
    pub usage: String,
    /// Clock speed, in the unit of the source (MHz).
    pub frequency: u64,
}

/// What a sensor source reports for one thermal sensor.
#[derive(Debug, PartialEq, Eq)]
pub struct ComponentReading {
    /// Name of the component, such as `coretemp Core 0`.
    pub label: String,
    /// Temperature in decimal notation, in the unit of the source.
    pub temperature: String,
}

/// One CPU sample: the state of one logical CPU at one moment.
#[derive(Debug, PartialEq, Eq)]
pub struct CPUMetric {
    /// Wall-clock time of capture.
    pub timestamp: String,
    /// Name of the logical CPU.
    pub thread_label: String,
    /// Load percentage in decimal notation; not clamped.
    pub utilization: String,
    /// Clock speed as the source gave it.
    pub frequency: u64,
}

/// One temperature sample: the reading of one CPU-core sensor at one moment.
#[derive(Debug, PartialEq, Eq)]
pub struct Temperature {
    /// Wall-clock time of capture.
    pub timestamp: String,
    /// Name of the sensor.
    pub label: String,
    /// Temperature in decimal notation as the source gave it.
    pub temperature: String,
}

/// Mathematical content of a [`CpuReading`].
pub struct CpuReadingView {
    pub label: Seq<char>,
    pub usage: Seq<char>,
    pub frequency: u64,
}

/// Mathematical content of a [`ComponentReading`].
pub struct ComponentReadingView {
    pub label: Seq<char>,
    pub temperature: Seq<char>,
}

/// Mathematical content of a [`CPUMetric`].
pub struct CPUMetricView {
    pub timestamp: Seq<char>,
    pub thread_label: Seq<char>,
    pub utilization: Seq<char>,
    pub frequency: u64,
}

/// Mathematical content of a [`Temperature`].
pub struct TemperatureView {
    pub timestamp: Seq<char>,
    pub label: Seq<char>,
    pub temperature: Seq<char>,
}

impl View for CpuReading {
    type V = CpuReadingView;

    open spec fn view(&self) -> CpuReadingView {
        CpuReadingView { label: self.label@, usage: self.usage@, frequency: self.frequency }
    }
}

impl DeepView for CpuReading {
    type V = CpuReadingView;

    open spec fn deep_view(&self) -> CpuReadingView {
        self@
    }
}

impl View for ComponentReading {
    type V = ComponentReadingView;

    open spec fn view(&self) -> ComponentReadingView {
        ComponentReadingView { label: self.label@, temperature: self.temperature@ }
    }
}

impl DeepView for ComponentReading {
    type V = ComponentReadingView;

    open spec fn deep_view(&self) -> ComponentReadingView {
        self@
    }
}

impl View for CPUMetric {
    type V = CPUMetricView;

    open spec fn view(&self) -> CPUMetricView {
        CPUMetricView {
            timestamp: self.timestamp@,
            thread_label: self.thread_label@,
            utilization: self.utilization@,
            frequency: self.frequency,
        }
    }
}

impl DeepView for CPUMetric {
    type V = CPUMetricView;

    open spec fn deep_view(&self) -> CPUMetricView {
        self@
    }
}

impl View for Temperature {
    type V = TemperatureView;

    open spec fn view(&self) -> TemperatureView {
        TemperatureView {
            timestamp: self.timestamp@,
            label: self.label@,
            temperature: self.temperature@,
        }
    }
}

impl DeepView for Temperature {
    type V = TemperatureView;

    open spec fn deep_view(&self) -> TemperatureView {
        self@
    }
}

impl Clone for CpuReading {
    fn clone(&self) -> (copy: Self)
        ensures
            copy == *self,
    {
        CpuReading {
            label: self.label.clone(),
            usage: self.usage.clone(),
            frequency: self.frequency,
        }
    }
}

impl Clone for ComponentReading {
    fn clone(&self) -> (copy: Self)
        ensures
            copy == *self,
    {
        ComponentReading { label: self.label.clone(), temperature: self.temperature.clone() }
    }
}

impl Clone for CPUMetric {
    fn clone(&self) -> (copy: Self)
        ensures
            copy == *self,
    {
        CPUMetric {
            timestamp: self.timestamp.clone(),
            thread_label: self.thread_label.clone(),
            utilization: self.utilization.clone(),
            frequency: self.frequency,
        }
    }
}

impl Clone for Temperature {
    fn clone(&self) -> (copy: Self)
        ensures
            copy == *self,
    {
        Temperature {
            timestamp: self.timestamp.clone(),
            label: self.label.clone(),
            temperature: self.temperature.clone(),
        }
    }
}

impl CPUMetric {
    /// The sample that a reading taken at `timestamp` becomes.
    pub open spec fn of(timestamp: Seq<char>, reading: CpuReadingView) -> CPUMetricView {
        CPUMetricView {
            timestamp,
            thread_label: reading.label,
            utilization: reading.usage,
            frequency: reading.frequency,
        }
    }

    /// Stamps a reading with the time of its capture; every value of the
    /// reading passes through unmodified.
    pub fn from_reading(timestamp: &str, reading: &CpuReading) -> (sample: CPUMetric)
        ensures
            sample@ == Self::of(timestamp@, reading@),
    {
        CPUMetric {
            timestamp: timestamp.to_owned(),
            thread_label: reading.label.clone(),
            utilization: reading.usage.clone(),
            frequency: reading.frequency,
        }
    }
}

impl Temperature {
    /// The sample that a reading taken at `timestamp` becomes.
    pub open spec fn of(timestamp: Seq<char>, reading: ComponentReadingView) -> TemperatureView {
        TemperatureView { timestamp, label: reading.label, temperature: reading.temperature }
    }

    /// Stamps a reading with the time of its capture; every value of the
    /// reading passes through unmodified.
    pub fn from_reading(timestamp: &str, reading: &ComponentReading) -> (sample: Temperature)
        ensures
            sample@ == Self::of(timestamp@, reading@),
    {
        Temperature {
            timestamp: timestamp.to_owned(),
            label: reading.label.clone(),
            temperature: reading.temperature.clone(),
        }
    }
}

} // verus!
