//! The actuator's receiving side: keeps the most recent reading for the
//! control loop and times each reception.

use crate::data_types::{PerformanceMetrics, SensorData};
use crate::metrics::{add_outcome, MetricsCollector, MetricsError};
use vstd::prelude::*;

verus! {

/// A slot that holds the most recent reading: storing overwrites.
#[derive(Debug)]
pub struct LatestSlot {
    latest: Option<SensorData>,
}

impl LatestSlot {
    /// What the slot holds.
    pub closed spec fn held(&self) -> Option<SensorData> {
        self.latest
    }

    /// An empty slot.
    pub fn new() -> (slot: Self)
        ensures
            slot.held() is None,
    {
        LatestSlot { latest: None }
    }

    /// Puts a reading in the slot, in place of whatever was there.
    pub fn store(&mut self, reading: SensorData)
        ensures
            final(self).held() == Some(reading),
    {
        self.latest = Some(reading);
    }

    /// The reading in the slot, if any.
    pub fn latest(&self) -> (reading: Option<&SensorData>)
        ensures
            match reading {
                Some(held) => self.held() == Some(*held),
                None => self.held() is None,
            },
    {
        self.latest.as_ref()
    }
}

/// The receiving task: a slot for the latest reading and the collector of
/// the reception timings.
pub struct ReceiverTask {
    pub metrics_collector: MetricsCollector,
    pub shared_sensor_data: LatestSlot,
}

impl ReceiverTask {
    /// A receiving task over a collector and a slot.
    pub fn new(metrics_collector: MetricsCollector, shared_sensor_data: LatestSlot) -> (task: Self)
        ensures
            task.metrics_collector == metrics_collector,
            task.shared_sensor_data == shared_sensor_data,
    {
        ReceiverTask { metrics_collector, shared_sensor_data }
    }

    /// Takes one reading: it becomes the latest, and its timing sample is
    /// recorded by the collector as `add_metrics` says, which also says when
    /// the sample is refused. The reading is kept even then.
    pub fn accept(&mut self, reading: SensorData, sample: PerformanceMetrics) -> (outcome: Result<
        (),
        MetricsError,
    >)
        requires
            old(self).metrics_collector.wf(),
        ensures
            final(self).metrics_collector.wf(),
            final(self).shared_sensor_data.held() == Some(reading),
            final(self).metrics_collector.extends(&old(self).metrics_collector),
            add_outcome(
                old(self).metrics_collector.buckets(),
                sample,
                final(self).metrics_collector.buckets(),
                outcome,
            ),
    {
        self.shared_sensor_data.store(reading);
        self.metrics_collector.add_metrics(sample)
    }
}

} // verus!
