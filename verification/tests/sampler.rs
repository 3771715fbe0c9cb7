use monitor::host::HostSensors;
use monitor::label::{is_core_sensor, starts_with};
use monitor::metric::{CPUMetric, ComponentReading, CpuReading, Temperature};
use monitor::sampler::{Monitor, TemperatureLog};
use monitor::sensor::SensorSource;

/// A source that hands out fixed readings and counts how often it was asked.
struct FixedSource {
    cpus: Vec<CpuReading>,
    components: Vec<ComponentReading>,
    cpu_refreshes: usize,
    component_refreshes: usize,
}

impl FixedSource {
    fn new(cpus: Vec<CpuReading>, components: Vec<ComponentReading>) -> Self {
        FixedSource { cpus, components, cpu_refreshes: 0, component_refreshes: 0 }
    }
}

impl SensorSource for FixedSource {
    fn refresh_cpu(&mut self) {
        self.cpu_refreshes += 1;
    }

    fn refresh_components(&mut self) {
        self.component_refreshes += 1;
    }

    fn list_cpus(&self) -> Vec<CpuReading> {
        self.cpus.clone()
    }

    fn list_components(&self) -> Vec<ComponentReading> {
        self.components.clone()
    }
}

/// A source whose readings show how often it was refreshed: a reading that
/// was listed without a refresh before it would be stale.
struct CountingSource {
    cpu_refreshes: u64,
    component_refreshes: u64,
}

impl SensorSource for CountingSource {
    fn refresh_cpu(&mut self) {
        self.cpu_refreshes += 1;
    }

    fn refresh_components(&mut self) {
        self.component_refreshes += 1;
    }

    fn list_cpus(&self) -> Vec<CpuReading> {
        vec![cpu("cpu0", "1.0", self.cpu_refreshes)]
    }

    fn list_components(&self) -> Vec<ComponentReading> {
        vec![component("coretemp Core 0", &format!("{}.0", self.component_refreshes))]
    }
}

fn cpu(label: &str, usage: &str, frequency: u64) -> CpuReading {
    CpuReading { label: label.to_string(), usage: usage.to_string(), frequency }
}

fn component(label: &str, temperature: &str) -> ComponentReading {
    ComponentReading { label: label.to_string(), temperature: temperature.to_string() }
}

fn two_cores() -> Vec<CpuReading> {
    vec![cpu("cpu0", "12.5", 2400), cpu("cpu1", "0.0", 800)]
}

fn three_components() -> Vec<ComponentReading> {
    vec![
        component("coretemp Core 0", "40.0"),
        component("acpitz", "35.0"),
        component("coretemp Core 1", "42.0"),
    ]
}

#[test]
fn new_monitor_has_empty_buffers() {
    let monitor = Monitor::new(FixedSource::new(two_cores(), three_components()));
    assert!(monitor.cpu_data().is_empty());
    assert!(monitor.temperature_data().is_empty());
}

#[test]
fn record_cpu_appends_one_sample_per_reading() {
    let mut monitor = Monitor::new(FixedSource::new(vec![], vec![]));
    monitor.record_cpu("2024-05-01 10:00:00", &two_cores());
    assert_eq!(
        monitor.cpu_data(),
        &vec![
            CPUMetric {
                timestamp: "2024-05-01 10:00:00".to_string(),
                thread_label: "cpu0".to_string(),
                utilization: "12.5".to_string(),
                frequency: 2400,
            },
            CPUMetric {
                timestamp: "2024-05-01 10:00:00".to_string(),
                thread_label: "cpu1".to_string(),
                utilization: "0.0".to_string(),
                frequency: 800,
            },
        ]
    );
    assert!(monitor.temperature_data().is_empty());
}

#[test]
fn record_cpu_passes_values_through_unclamped() {
    let mut monitor = Monitor::new(FixedSource::new(vec![], vec![]));
    monitor.record_cpu("t", &vec![cpu("cpu7", "104.25", u64::MAX), cpu("", "-0.5", 0), cpu("cpu9", "NaN", 1)]);
    let data = monitor.cpu_data();
    assert_eq!(data.len(), 3);
    assert_eq!(data[0].utilization, "104.25");
    assert_eq!(data[0].frequency, u64::MAX);
    assert_eq!(data[1].thread_label, "");
    assert_eq!(data[1].utilization, "-0.5");
    assert_eq!(data[1].frequency, 0);
    assert_eq!(data[2].utilization, "NaN");
}

#[test]
fn record_cpu_twice_doubles_the_buffer() {
    let mut monitor = Monitor::new(FixedSource::new(vec![], vec![]));
    monitor.record_cpu("first", &two_cores());
    let after_first = monitor.cpu_data().clone();
    monitor.record_cpu("second", &two_cores());
    let data = monitor.cpu_data();
    assert_eq!(data.len(), 4);
    assert_eq!(&data[..2], &after_first[..]);
    assert_eq!(data[2].timestamp, "second");
    assert_eq!(data[2].thread_label, "cpu0");
    assert_eq!(data[3].timestamp, "second");
    assert_eq!(data[3].thread_label, "cpu1");
}

#[test]
fn record_cpu_with_no_readings_changes_nothing() {
    let mut monitor = Monitor::new(FixedSource::new(vec![], vec![]));
    monitor.record_cpu("first", &two_cores());
    monitor.record_cpu("second", &vec![]);
    assert_eq!(monitor.cpu_data().len(), 2);
    assert_eq!(monitor.cpu_data()[1].timestamp, "first");
}

#[test]
fn filter_keeps_core_sensors_only() {
    let mut monitor = Monitor::new(FixedSource::new(vec![], three_components()));
    monitor.collect_temperature();
    let data = monitor.temperature_data();
    assert_eq!(data.len(), 2);
    assert_eq!(data[0].label, "coretemp Core 0");
    assert_eq!(data[0].temperature, "40.0");
    assert_eq!(data[1].label, "coretemp Core 1");
    assert_eq!(data[1].temperature, "42.0");
    assert!(data.iter().all(|sample| sample.label != "acpitz"));
    assert!(monitor.cpu_data().is_empty());
}

#[test]
fn record_temperature_keeps_order_and_values() {
    let mut monitor = Monitor::new(FixedSource::new(vec![], vec![]));
    monitor.record_temperature("2024-05-01 10:00:01", &three_components());
    assert_eq!(
        monitor.temperature_data(),
        &vec![
            Temperature {
                timestamp: "2024-05-01 10:00:01".to_string(),
                label: "coretemp Core 0".to_string(),
                temperature: "40.0".to_string(),
            },
            Temperature {
                timestamp: "2024-05-01 10:00:01".to_string(),
                label: "coretemp Core 1".to_string(),
                temperature: "42.0".to_string(),
            },
        ]
    );
}

#[test]
fn record_temperature_with_no_core_sensor_appends_nothing() {
    let mut monitor = Monitor::new(FixedSource::new(vec![], vec![]));
    monitor.record_temperature(
        "t",
        &vec![component("acpitz", "35.0"), component("nvme Composite", "31.9"), component("iwlwifi_1", "44.0")],
    );
    assert!(monitor.temperature_data().is_empty());
}

#[test]
fn temperature_log_filters_and_appends() {
    let mut log = TemperatureLog::new();
    assert!(log.samples().is_empty());
    log.record("a", &three_components());
    log.record("b", &vec![component("BAT0", "30.0")]);
    log.record("c", &vec![component("coretemp Package id 0", "45.5")]);
    let labels: Vec<&str> = log.samples().iter().map(|sample| sample.label.as_str()).collect();
    assert_eq!(labels, vec!["coretemp Core 0", "coretemp Core 1", "coretemp Package id 0"]);
    let stamps: Vec<&str> = log.samples().iter().map(|sample| sample.timestamp.as_str()).collect();
    assert_eq!(stamps, vec!["a", "a", "c"]);
}

#[test]
fn buffers_grow_by_what_each_round_produces() {
    let mut monitor = Monitor::new(FixedSource::new(vec![], vec![]));
    let rounds: Vec<Vec<CpuReading>> = vec![two_cores(), vec![], vec![cpu("cpu0", "3.0", 1)], two_cores()];
    let mut expected = 0;
    let mut earlier: Vec<CPUMetric> = Vec::new();
    for (tick, readings) in rounds.iter().enumerate() {
        monitor.record_cpu(&format!("tick {}", tick), readings);
        expected += readings.len();
        assert_eq!(monitor.cpu_data().len(), expected);
        assert_eq!(&monitor.cpu_data()[..earlier.len()], &earlier[..]);
        earlier = monitor.cpu_data().clone();
    }
    assert_eq!(expected, 5);
}

#[test]
fn temperature_buffer_grows_by_the_core_readings_of_each_round() {
    let mut monitor = Monitor::new(FixedSource::new(vec![], vec![]));
    let mut lengths = Vec::new();
    for tick in 0..4 {
        monitor.record_temperature(&format!("tick {}", tick), &three_components());
        lengths.push(monitor.temperature_data().len());
    }
    assert_eq!(lengths, vec![2, 4, 6, 8]);
    assert_eq!(monitor.temperature_data()[0].timestamp, "tick 0");
    assert_eq!(monitor.temperature_data()[7].timestamp, "tick 3");
}

#[test]
fn collect_cpu_takes_one_sample_per_core_with_one_timestamp() {
    let mut monitor = Monitor::new(FixedSource::new(two_cores(), three_components()));
    monitor.collect_cpu();
    let data = monitor.cpu_data();
    assert_eq!(data.len(), 2);
    assert_eq!(data[0].thread_label, "cpu0");
    assert_eq!(data[0].utilization, "12.5");
    assert_eq!(data[0].frequency, 2400);
    assert_eq!(data[1].thread_label, "cpu1");
    assert_eq!(data[1].utilization, "0.0");
    assert_eq!(data[1].frequency, 800);
    assert!(!data[0].timestamp.is_empty());
    assert_eq!(data[0].timestamp, data[1].timestamp);
    assert!(monitor.temperature_data().is_empty());
}

#[test]
fn collect_is_not_idempotent() {
    let mut monitor = Monitor::new(FixedSource::new(two_cores(), three_components()));
    monitor.collect_cpu();
    monitor.collect_cpu();
    assert_eq!(monitor.cpu_data().len(), 4);
    monitor.collect_temperature();
    monitor.collect_temperature();
    assert_eq!(monitor.temperature_data().len(), 4);
    assert_eq!(monitor.cpu_data().len(), 4);
}

#[test]
fn collect_refreshes_before_it_lists() {
    let mut monitor = Monitor::new(CountingSource { cpu_refreshes: 0, component_refreshes: 0 });
    monitor.collect_cpu();
    monitor.collect_cpu();
    monitor.collect_temperature();
    let frequencies: Vec<u64> = monitor.cpu_data().iter().map(|sample| sample.frequency).collect();
    assert_eq!(frequencies, vec![2, 3]);
    assert_eq!(monitor.temperature_data().len(), 1);
    assert_eq!(monitor.temperature_data()[0].temperature, "2.0");
}

#[test]
fn new_monitor_refreshes_the_source_once() {
    let monitor = Monitor::new(FixedSource::new(two_cores(), three_components()));
    assert_eq!(monitor.sensors().cpu_refreshes, 1);
    assert_eq!(monitor.sensors().component_refreshes, 1);
    assert!(monitor.cpu_data().is_empty());
    assert!(monitor.temperature_data().is_empty());
}

#[test]
fn each_round_refreshes_its_own_kind_once() {
    let mut monitor = Monitor::new(FixedSource::new(two_cores(), three_components()));
    monitor.collect_cpu();
    assert_eq!(monitor.sensors().cpu_refreshes, 2);
    assert_eq!(monitor.sensors().component_refreshes, 1);
    monitor.collect_temperature();
    monitor.collect_temperature();
    assert_eq!(monitor.sensors().cpu_refreshes, 2);
    assert_eq!(monitor.sensors().component_refreshes, 3);
    monitor.record_cpu("t", &two_cores());
    monitor.record_temperature("t", &three_components());
    assert_eq!(monitor.sensors().cpu_refreshes, 2);
    assert_eq!(monitor.sensors().component_refreshes, 3);
}

#[test]
fn samples_of_a_round_are_what_the_source_holds_after_it() {
    let mut monitor = Monitor::new(CountingSource { cpu_refreshes: 0, component_refreshes: 0 });
    monitor.collect_cpu();
    let held = monitor.sensors().list_cpus();
    let sample = &monitor.cpu_data()[0];
    assert_eq!(held.len(), 1);
    assert_eq!(sample.thread_label, held[0].label);
    assert_eq!(sample.utilization, held[0].usage);
    assert_eq!(sample.frequency, held[0].frequency);
    monitor.collect_temperature();
    let held = monitor.sensors().list_components();
    let sample = &monitor.temperature_data()[0];
    assert_eq!(sample.label, held[0].label);
    assert_eq!(sample.temperature, held[0].temperature);
}

#[test]
fn a_source_without_readings_is_no_error() {
    let mut monitor = Monitor::new(FixedSource::new(vec![], vec![]));
    monitor.collect_cpu();
    monitor.collect_temperature();
    assert!(monitor.cpu_data().is_empty());
    assert!(monitor.temperature_data().is_empty());
}

#[test]
fn sample_from_reading_keeps_every_value() {
    let sample = CPUMetric::from_reading("now", &cpu("cpu3", "99.9", 3600));
    assert_eq!(
        sample,
        CPUMetric {
            timestamp: "now".to_string(),
            thread_label: "cpu3".to_string(),
            utilization: "99.9".to_string(),
            frequency: 3600,
        }
    );
    let sample = Temperature::from_reading("now", &component("coretemp Core 2", "-3.5"));
    assert_eq!(
        sample,
        Temperature {
            timestamp: "now".to_string(),
            label: "coretemp Core 2".to_string(),
            temperature: "-3.5".to_string(),
        }
    );
}

#[test]
fn core_sensor_names() {
    assert!(is_core_sensor("coretemp Core 0"));
    assert!(is_core_sensor("coretemp Package id 0"));
    assert!(is_core_sensor("coretemp"));
    assert!(is_core_sensor("coretemperature"));
    assert!(!is_core_sensor("coretem"));
    assert!(!is_core_sensor(""));
    assert!(!is_core_sensor("Coretemp Core 0"));
    assert!(!is_core_sensor(" coretemp Core 0"));
    assert!(!is_core_sensor("acpitz"));
    assert!(!is_core_sensor("nvme coretemp"));
    assert!(!is_core_sensor("k10temp Tctl"));
}

#[test]
fn starts_with_compares_characters() {
    assert!(starts_with("abc", ""));
    assert!(starts_with("", ""));
    assert!(!starts_with("", "a"));
    assert!(starts_with("abc", "abc"));
    assert!(!starts_with("ab", "abc"));
    assert!(starts_with("température 1", "tempé"));
    assert!(!starts_with("temperature 1", "tempé"));
    assert!(starts_with("日本語のセンサ", "日本"));
    assert!(!starts_with("日本語のセンサ", "本"));
}

#[test]
fn host_sensors_fill_the_buffers() {
    let mut monitor = Monitor::new(HostSensors::new());
    monitor.collect_cpu();
    let first = monitor.cpu_data().len();
    monitor.collect_cpu();
    assert_eq!(monitor.cpu_data().len(), 2 * first);
    for sample in monitor.cpu_data() {
        assert!(!sample.timestamp.is_empty());
        assert!(!sample.utilization.is_empty());
    }
    for pair in monitor.cpu_data()[..first].windows(2) {
        assert_eq!(pair[0].timestamp, pair[1].timestamp);
    }
    monitor.collect_temperature();
    for sample in monitor.temperature_data() {
        assert!(sample.label.starts_with("coretemp"));
        assert!(!sample.temperature.is_empty());
    }
}

#[test]
fn host_sensors_list_what_they_hold() {
    let mut sensors = HostSensors::new();
    sensors.refresh_cpu();
    let cpus = sensors.list_cpus();
    assert_eq!(sensors.list_cpus(), cpus);
    assert_eq!(sensors.list_cpus(), cpus);
    for reading in &cpus {
        assert!(reading.usage.parse::<f64>().is_ok());
    }
    sensors.refresh_components();
    let components = sensors.list_components();
    assert_eq!(sensors.list_components(), components);
    for reading in &components {
        assert!(reading.temperature.parse::<f64>().is_ok());
    }
}
