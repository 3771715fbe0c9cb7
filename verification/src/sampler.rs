//! The sampler: a sensor source and one append-only buffer per metric kind.

use vstd::prelude::*;
use crate::host::wall_clock;
use crate::label::{is_core_label, is_core_sensor};
use crate::metric::{
    CPUMetric, CPUMetricView, ComponentReading, ComponentReadingView, CpuReading, CpuReadingView,
    Temperature, TemperatureView,
};
use crate::sensor::SensorSource;

verus! {

/// The CPU samples that one round yields: one per reading, in the order of
/// the readings, all with the timestamp of the round.
pub open spec fn cpu_samples(timestamp: Seq<char>, readings: Seq<CpuReadingView>) -> Seq<
    CPUMetricView,
> {
    readings.map_values(|reading: CpuReadingView| CPUMetric::of(timestamp, reading))
}

/// The readings that come from CPU-core sensors, in their order.
pub open spec fn core_readings(readings: Seq<ComponentReadingView>) -> Seq<ComponentReadingView> {
    readings.filter(|reading: ComponentReadingView| is_core_label(reading.label))
}

/// The temperature samples that one round yields: one per reading of a
/// CPU-core sensor, in the order of the readings, all with the timestamp of
/// the round. Readings of other sensors yield nothing.
pub open spec fn temperature_samples(
    timestamp: Seq<char>,
    readings: Seq<ComponentReadingView>,
) -> Seq<TemperatureView> {
    core_readings(readings).map_values(
        |reading: ComponentReadingView| Temperature::of(timestamp, reading),
    )
}

/// A buffer after `batches` were appended to `start`, one after the other.
pub open spec fn grown<A>(start: Seq<A>, batches: Seq<Seq<A>>) -> Seq<A>
    decreases batches.len(),
{
    if batches.len() == 0 {
        start
    } else {
        grown(start, batches.drop_last()) + batches.last()
    }
}

/// The number of records in all of `batches`.
pub open spec fn produced<A>(batches: Seq<Seq<A>>) -> nat
    decreases batches.len(),
{
    if batches.len() == 0 {
        0
    } else {
        produced(batches.drop_last()) + batches.last().len()
    }
}

/// The length of a buffer that has grown: what it had, plus what was added.
proof fn lemma_grown_len<A>(start: Seq<A>, batches: Seq<Seq<A>>)
    ensures
        grown(start, batches).len() == start.len() + produced(batches),
    decreases batches.len(),
{
    if batches.len() > 0 {
        lemma_grown_len(start, batches.drop_last());
    }
}

/// Buffers grow and never shrink. Let `batches` be the records that each
/// round of a run produced, in turn. After the first `ticks` rounds the
/// buffer holds what it held at the start and then the records of those
/// rounds: its length is the length at the start plus the number of records
/// that they produced. And whatever it held then is still there after all
/// the rounds, at the same places: nothing is ever removed or moved.
///
/// For a round of [`Monitor::record_cpu`] the records produced are
/// [`cpu_samples`], for a round of [`Monitor::record_temperature`] they are
/// [`temperature_samples`]; [`lemma_grown_push`] says that one more round
/// is one more batch.
pub proof fn lemma_buffer_growth<A>(start: Seq<A>, batches: Seq<Seq<A>>, ticks: nat)
    requires
        ticks <= batches.len(),
    ensures
        grown(start, batches.take(ticks as int)).len() == start.len() + produced(
            batches.take(ticks as int),
        ),
        grown(start, batches.take(ticks as int)).is_prefix_of(grown(start, batches)),
    decreases batches.len(),
{
    lemma_grown_len(start, batches.take(ticks as int));
    if ticks == batches.len() {
        assert(batches.take(ticks as int) =~= batches);
    } else {
        let earlier = batches.drop_last();
        assert(batches.take(ticks as int) =~= earlier.take(ticks as int));
        lemma_buffer_growth(start, earlier, ticks);
    }
}

/// One more round appends its records to what all earlier rounds left.
pub proof fn lemma_grown_push<A>(start: Seq<A>, batches: Seq<Seq<A>>, batch: Seq<A>)
    ensures
        grown(start, batches.push(batch)) == grown(start, batches) + batch,
        produced(batches.push(batch)) == produced(batches) + batch.len(),
{
    assert(batches.push(batch).drop_last() =~= batches);
}

/// A round of CPU sampling yields one sample per reading, whatever the
/// readings are.
pub proof fn lemma_cpu_round(timestamp: Seq<char>, readings: Seq<CpuReadingView>)
    ensures
        cpu_samples(timestamp, readings).len() == readings.len(),
        forall|i: int|
            0 <= i < readings.len() ==> #[trigger] cpu_samples(timestamp, readings)[i]
                == CPUMetric::of(timestamp, readings[i]),
{
}

/// The label filter. Of the readings of a round of temperature sampling,
/// exactly those of CPU-core sensors become samples: every sample of the
/// round carries the name of a CPU-core sensor and stems from a reading of
/// the round, every reading of a CPU-core sensor is among the samples, and
/// no reading of another sensor is.
pub proof fn lemma_label_filter(timestamp: Seq<char>, readings: Seq<ComponentReadingView>)
    ensures
        temperature_samples(timestamp, readings).len() == core_readings(readings).len(),
        temperature_samples(timestamp, readings).len() <= readings.len(),
        forall|i: int|
            0 <= i < temperature_samples(timestamp, readings).len() ==> {
                &&& is_core_label(#[trigger] temperature_samples(timestamp, readings)[i].label)
                &&& exists|j: int|
                    0 <= j < readings.len() && temperature_samples(timestamp, readings)[i]
                        == Temperature::of(timestamp, #[trigger] readings[j])
            },
        forall|j: int|
            0 <= j < readings.len() ==> (is_core_label(#[trigger] readings[j].label)
                <==> temperature_samples(timestamp, readings).contains(
                Temperature::of(timestamp, readings[j]),
            )),
{
    let keep = |reading: ComponentReadingView| is_core_label(reading.label);
    let kept = core_readings(readings);
    let samples = temperature_samples(timestamp, readings);
    broadcast use vstd::seq_lib::group_filter_ensures;

    assert forall|i: int| 0 <= i < samples.len() implies {
        &&& is_core_label(#[trigger] samples[i].label)
        &&& exists|j: int|
            0 <= j < readings.len() && samples[i] == Temperature::of(
                timestamp,
                #[trigger] readings[j],
            )
    } by {
        assert(keep(kept[i]));
        readings.lemma_filter_contains_rev(keep, kept[i]);
        let j = choose|j: int| 0 <= j < readings.len() && readings[j] == kept[i];
        assert(samples[i] == Temperature::of(timestamp, readings[j]));
    }
    assert forall|j: int| 0 <= j < readings.len() implies (is_core_label(
        #[trigger] readings[j].label,
    ) <==> samples.contains(Temperature::of(timestamp, readings[j]))) by {
        if is_core_label(readings[j].label) {
            assert(keep(readings[j]));
            assert(kept.contains(readings[j]));
            let k = choose|k: int| 0 <= k < kept.len() && kept[k] == readings[j];
            assert(samples[k] == Temperature::of(timestamp, readings[j]));
        } else if samples.contains(Temperature::of(timestamp, readings[j])) {
            let k = choose|k: int|
                0 <= k < samples.len() && samples[k] == Temperature::of(timestamp, readings[j]);
            assert(keep(kept[k]));
            assert(samples[k].label == kept[k].label);
        }
    }
}

/// The temperature samples of a run: it only ever grows at the end, and it
/// holds samples of CPU-core sensors only.
pub struct TemperatureLog {
    samples: Vec<Temperature>,
}

impl View for TemperatureLog {
    type V = Seq<TemperatureView>;

    /// The samples in the log, oldest first.
    closed spec fn view(&self) -> Seq<TemperatureView> {
        self.samples.deep_view()
    }
}

impl TemperatureLog {
    #[verifier::type_invariant]
    spec fn only_core_sensors(self) -> bool {
        forall|i: int|
            0 <= i < self.samples@.len() ==> is_core_label(#[trigger] self.samples@[i].label@)
    }

    /// An empty log.
    pub fn new() -> (log: Self)
        ensures
            log@ == Seq::<TemperatureView>::empty(),
    {
        let log = TemperatureLog { samples: Vec::new() };
        assert(log@ =~= Seq::<TemperatureView>::empty());
        log
    }

    /// The samples in the log, oldest first. Every one of them comes from a
    /// CPU-core sensor.
    pub fn samples(&self) -> (data: &Vec<Temperature>)
        ensures
            data.deep_view() == self@,
            forall|i: int| 0 <= i < data@.len() ==> is_core_label(#[trigger] data@[i].label@),
    {
        proof {
            use_type_invariant(self);
        }
        &self.samples
    }

    /// Appends one sample per reading of a CPU-core sensor, in the order of
    /// the readings, each stamped with `timestamp`. Readings of other
    /// sensors are dropped.
    pub fn record(&mut self, timestamp: &str, readings: &Vec<ComponentReading>)
        ensures
            final(self)@ == old(self)@ + temperature_samples(
                timestamp@,
                readings.deep_view(),
            ),
    {
        proof {
            use_type_invariant(&*self);
        }
        let ghost start = self@;
        let ghost keep = |reading: ComponentReadingView| is_core_label(reading.label);
        let ghost stamp = |reading: ComponentReadingView| Temperature::of(timestamp@, reading);
        let mut samples: Vec<Temperature> = Vec::new();
        core::mem::swap(&mut self.samples, &mut samples);
        let mut at: usize = 0;
        while at < readings.len()
            invariant
                at <= readings.len(),
                samples.deep_view() == start + readings.deep_view().take(at as int).filter(
                    keep,
                ).map_values(stamp),
                forall|i: int|
                    0 <= i < samples@.len() ==> is_core_label(#[trigger] samples@[i].label@),
                keep == |reading: ComponentReadingView| is_core_label(reading.label),
                stamp == |reading: ComponentReadingView| Temperature::of(timestamp@, reading),
            decreases readings.len() - at,
        {
            let ghost before = samples.deep_view();
            let ghost seen = readings.deep_view().take(at as int);
            let ghost reading = readings.deep_view()[at as int];
            proof {
                readings.deep_view().lemma_take_succ_push(at as int);
                seen.lemma_filter_push(reading, keep);
            }
            if is_core_sensor(readings[at].label.as_str()) {
                let sample = Temperature::from_reading(timestamp, &readings[at]);
                samples.push(sample);
                proof {
                    assert(samples.deep_view() =~= before.push(sample@));
                    seen.filter(keep).lemma_push_map_commute(stamp, reading);
                }
            }
            at += 1;
        }
        proof {
            readings.deep_view().lemma_take_len();
        }
        self.samples = samples;
    }
}

/// A sensor source with the samples taken from it so far.
///
/// Both buffers only ever grow at the end: a sample, once taken, is neither
/// changed nor removed nor moved.
pub struct Monitor<S: SensorSource> {
    source: S,
    cpu_data: Vec<CPUMetric>,
    temperature_data: TemperatureLog,
}

impl<S: SensorSource> Monitor<S> {
    /// The sensor source that the sampler reads from.
    pub closed spec fn source(&self) -> S {
        self.source
    }

    /// The CPU samples taken so far, oldest first.
    pub closed spec fn cpu_view(&self) -> Seq<CPUMetricView> {
        self.cpu_data.deep_view()
    }

    /// The temperature samples taken so far, oldest first.
    pub closed spec fn temperature_view(&self) -> Seq<TemperatureView> {
        self.temperature_data@
    }

    /// A sampler on `source` with both buffers empty. The source is made
    /// to read its CPUs and its thermal sensors once, so that the first
    /// round has readings to compare with.
    pub fn new(source: S) -> (monitor: Self)
        ensures
            monitor.cpu_view() == Seq::<CPUMetricView>::empty(),
            monitor.temperature_view() == Seq::<TemperatureView>::empty(),
            monitor.source().cpu_refreshes() == source.cpu_refreshes() + 1,
            monitor.source().component_refreshes() == source.component_refreshes() + 1,
    {
        let mut source = source;
        source.refresh_cpu();
        source.refresh_components();
        let monitor = Monitor { source, cpu_data: Vec::new(), temperature_data: TemperatureLog::new() };
        assert(monitor.cpu_view() =~= Seq::<CPUMetricView>::empty());
        monitor
    }

    /// The sensor source that the sampler reads from.
    pub fn sensors(&self) -> (source: &S)
        ensures
            *source == self.source(),
    {
        &self.source
    }

    /// The CPU samples taken so far, oldest first.
    pub fn cpu_data(&self) -> (data: &Vec<CPUMetric>)
        ensures
            data.deep_view() == self.cpu_view(),
    {
        &self.cpu_data
    }

    /// The temperature samples taken so far, oldest first. Every one of them
    /// comes from a CPU-core sensor.
    pub fn temperature_data(&self) -> (data: &Vec<Temperature>)
        ensures
            data.deep_view() == self.temperature_view(),
            forall|i: int| 0 <= i < data@.len() ==> is_core_label(#[trigger] data@[i].label@),
    {
        self.temperature_data.samples()
    }

    /// Appends one CPU sample per reading, in order, each stamped with
    /// `timestamp`. Nothing that was in a buffer before is touched, and the
    /// source is not asked.
    pub fn record_cpu(&mut self, timestamp: &str, readings: &Vec<CpuReading>)
        ensures
            final(self).cpu_view() == old(self).cpu_view() + cpu_samples(
                timestamp@,
                readings.deep_view(),
            ),
            final(self).temperature_view() == old(self).temperature_view(),
            final(self).source() == old(self).source(),
    {
        let ghost stamp = |reading: CpuReadingView| CPUMetric::of(timestamp@, reading);
        let mut at: usize = 0;
        while at < readings.len()
            invariant
                at <= readings.len(),
                self.cpu_data.deep_view() == old(self).cpu_data.deep_view()
                    + readings.deep_view().take(at as int).map_values(stamp),
                self.temperature_data == old(self).temperature_data,
                self.source == old(self).source,
                stamp == |reading: CpuReadingView| CPUMetric::of(timestamp@, reading),
            decreases readings.len() - at,
        {
            let sample = CPUMetric::from_reading(timestamp, &readings[at]);
            let ghost before = self.cpu_data.deep_view();
            let ghost seen = readings.deep_view().take(at as int);
            self.cpu_data.push(sample);
            proof {
                assert(self.cpu_data.deep_view() =~= before.push(sample@));
                readings.deep_view().lemma_take_succ_push(at as int);
                seen.lemma_push_map_commute(stamp, readings.deep_view()[at as int]);
            }
            at += 1;
        }
        proof {
            readings.deep_view().lemma_take_len();
        }
    }

    /// Appends one temperature sample per reading of a CPU-core sensor, in
    /// the order of the readings, each stamped with `timestamp`. Readings of
    /// other sensors are dropped. Nothing that was in a buffer before is
    /// touched, and the source is not asked.
    pub fn record_temperature(&mut self, timestamp: &str, readings: &Vec<ComponentReading>)
        ensures
            final(self).temperature_view() == old(self).temperature_view() + temperature_samples(
                timestamp@,
                readings.deep_view(),
            ),
            final(self).cpu_view() == old(self).cpu_view(),
            final(self).source() == old(self).source(),
    {
        self.temperature_data.record(timestamp, readings);
    }

    /// One round of CPU sampling: refreshes the CPUs of the source, then
    /// lists them and appends one sample per CPU, all stamped with the time
    /// of this call. The samples are those of the readings that the source
    /// holds after that refresh, not of older ones. Which time the round saw
    /// is for the clock to say.
    pub fn collect_cpu(&mut self)
        ensures
            exists|timestamp: Seq<char>|
                final(self).cpu_view() == old(self).cpu_view() + #[trigger] cpu_samples(
                    timestamp,
                    final(self).source().held_cpu_readings(),
                ),
            final(self).temperature_view() == old(self).temperature_view(),
            final(self).source().cpu_refreshes() == old(self).source().cpu_refreshes() + 1,
            final(self).source().component_refreshes() == old(self).source().component_refreshes(),
    {
        self.source.refresh_cpu();
        let readings = self.source.list_cpus();
        let timestamp = wall_clock();
        self.record_cpu(timestamp.as_str(), &readings);
    }

    /// One round of temperature sampling: refreshes the components of the
    /// source, then lists them and appends one sample per CPU-core sensor,
    /// all stamped with the time of this call. The samples are those of the
    /// readings that the source holds after that refresh, not of older
    /// ones. Which time the round saw is for the clock to say.
    pub fn collect_temperature(&mut self)
        ensures
            exists|timestamp: Seq<char>|
                final(self).temperature_view() == old(self).temperature_view()
                    + #[trigger] temperature_samples(
                    timestamp,
                    final(self).source().held_component_readings(),
                ),
            final(self).cpu_view() == old(self).cpu_view(),
            final(self).source().component_refreshes() == old(self).source().component_refreshes()
                + 1,
            final(self).source().cpu_refreshes() == old(self).source().cpu_refreshes(),
    {
        self.source.refresh_components();
        let readings = self.source.list_components();
        let timestamp = wall_clock();
        self.record_temperature(timestamp.as_str(), &readings);
    }
}

} // verus!
