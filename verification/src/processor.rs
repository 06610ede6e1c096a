//! The data processor: filters each reading through the statistics of its
//! stream, flags anomalies, and turns anomalous readings into actuation
//! requests.

use crate::clock::{current_timestamp_ms, ClockError};
use crate::data_types::{
    assess, can_assess, confidence_of, is_outlier, lemma_confidence_range, z_score_of,
    ActuatorCommand, ControlCommand, PerformanceMetrics, SensorData, SensorType,
};
use crate::numeric::{as_ints, largest, seq_max, seq_min, seq_sum, smallest, total, VALUE_LIMIT};
use crate::numeric::abs_int;
use crate::stats::{mean_of, std_dev_of, within_limit, StatisticsEngine, SAMPLE_CAPACITY};
use vstd::prelude::*;
use vstd::string::StringExecFns;

verus! {

/// Samples a stream must have before its readings are judged.
pub const DEFAULT_MIN_SAMPLES: u64 = 10;

/// Time an actuation request is given, in milliseconds, unless set otherwise.
pub const DEFAULT_HORIZON_MS: u64 = 2000;

/// Priority of an actuation request.
pub const REQUEST_PRIORITY: u8 = 1;

/// The anomaly threshold of each kind of sensor, in thousandths of a
/// standard deviation.
#[derive(Debug, Clone, Copy, PartialEq, Eq, Structural)]
pub struct Thresholds {
    pub force: i64,
    pub position: i64,
    pub velocity: i64,
    pub temperature: i64,
}

impl Thresholds {
    /// The threshold of one kind of sensor.
    pub open spec fn of(self, kind: SensorType) -> i64 {
        match kind {
            SensorType::Force => self.force,
            SensorType::Position => self.position,
            SensorType::Velocity => self.velocity,
            SensorType::Temperature => self.temperature,
        }
    }

    /// These thresholds with the one of `kind` replaced.
    pub open spec fn with(self, kind: SensorType, threshold: i64) -> Thresholds {
        match kind {
            SensorType::Force => Thresholds { force: threshold, ..self },
            SensorType::Position => Thresholds { position: threshold, ..self },
            SensorType::Velocity => Thresholds { velocity: threshold, ..self },
            SensorType::Temperature => Thresholds { temperature: threshold, ..self },
        }
    }

    /// True when every threshold is positive.
    pub open spec fn all_positive(self) -> bool {
        self.force > 0 && self.position > 0 && self.velocity > 0 && self.temperature > 0
    }

    /// The thresholds a processor starts with: 2.5, 3.0, 2.8 and 3.5 standard
    /// deviations for force, position, velocity and temperature.
    pub open spec fn initial() -> Thresholds {
        Thresholds { force: 2500, position: 3000, velocity: 2800, temperature: 3500 }
    }
}

/// Why a threshold was not changed.
#[derive(Debug, Clone, Copy, PartialEq, Eq, Structural)]
pub enum ThresholdError {
    /// A threshold must be positive.
    NotPositive,
}

/// What a reading becomes once its stream, with the reading in it, is
/// `history`: its value is the mean of the stream, and from `min_samples`
/// samples on it is judged by its distance from that mean. Below that its
/// flag and confidence are passed on as they came.
pub open spec fn processed_reading(
    raw: SensorData,
    history: Seq<int>,
    min_samples: int,
    threshold: int,
) -> SensorData {
    let mean = mean_of(history);
    let std_dev = std_dev_of(history);
    if history.len() >= min_samples {
        SensorData {
            value: mean as i64,
            is_anomaly: is_outlier(raw.value as int, mean, std_dev, threshold),
            confidence: confidence_of(raw.value as int, mean, std_dev, threshold) as i64,
            ..raw
        }
    } else {
        SensorData { value: mean as i64, ..raw }
    }
}

/// True when `out` is what the processor makes of `raw` once the stream,
/// with the reading in it, is `history`: it is `processed_reading`, which
/// says, over the integers: its value is the mean of the stream; from
/// `min_samples` samples on its flag and confidence are those of the judging,
/// the confidence being at least 0.1; below that they are as they came. The
/// threshold it is judged by is positive.
pub open spec fn filters_to(
    raw: SensorData,
    history: Seq<int>,
    min_samples: int,
    threshold: int,
    out: SensorData,
) -> bool {
    &&& out == processed_reading(raw, history, min_samples, threshold)
    &&& out.value == mean_of(history)
    &&& threshold > 0
    &&& history.len() >= min_samples ==> {
        &&& out.is_anomaly == is_outlier(
            raw.value as int,
            mean_of(history),
            std_dev_of(history),
            threshold,
        )
        &&& out.confidence == confidence_of(
            raw.value as int,
            mean_of(history),
            std_dev_of(history),
            threshold,
        )
        &&& 100 <= out.confidence <= 1000
    }
    &&& history.len() < min_samples ==> {
        &&& out.is_anomaly == raw.is_anomaly
        &&& out.confidence == raw.confidence
    }
}

/// A reading from a stream shorter than the minimum keeps its flag and its
/// confidence.
pub proof fn lemma_flags_pass_below_minimum(
    raw: SensorData,
    history: Seq<int>,
    min_samples: int,
    threshold: int,
)
    requires
        history.len() < min_samples,
    ensures
        processed_reading(raw, history, min_samples, threshold).is_anomaly == raw.is_anomaly,
        processed_reading(raw, history, min_samples, threshold).confidence == raw.confidence,
{
}

/// The confidence of a processed reading never leaves the range from 0 to 1
/// if it came within it. From the minimum sample count on it is at least 0.1
/// on every path: 0.1 exactly where the stream has no spread, and at most
/// 0.95 where the reading was judged and its z-score is at least a tenth of
/// its threshold. Below the minimum the reading keeps what it came with.
pub proof fn lemma_processed_confidence(
    raw: SensorData,
    history: Seq<int>,
    min_samples: int,
    threshold: int,
)
    requires
        0 <= raw.confidence <= 1000,
    ensures
        0 <= processed_reading(raw, history, min_samples, threshold).confidence <= 1000,
        history.len() >= min_samples ==> 100 <= processed_reading(
            raw,
            history,
            min_samples,
            threshold,
        ).confidence,
        history.len() >= min_samples && can_assess(std_dev_of(history), threshold) && z_score_of(
            raw.value as int,
            mean_of(history),
            std_dev_of(history),
        ) * 10 >= threshold ==> processed_reading(raw, history, min_samples, threshold).confidence
            <= 950,
        history.len() >= min_samples && !can_assess(std_dev_of(history), threshold)
            ==> processed_reading(raw, history, min_samples, threshold).confidence == 100
            && !processed_reading(raw, history, min_samples, threshold).is_anomaly,
        history.len() < min_samples ==> processed_reading(
            raw,
            history,
            min_samples,
            threshold,
        ).confidence == raw.confidence,
{
    lemma_confidence_range(raw.value as int, mean_of(history), std_dev_of(history), threshold);
}

/// From the minimum sample count on, a reading from a stream with spread is
/// judged by its own value, whatever flag it came with. With `z` the distance
/// of the value from the mean of the stream in standard deviations, in
/// thousandths and rounded down, the reading is an anomaly exactly if `z`
/// exceeds the threshold, and its confidence is
/// `max(0.1, 1 - min(0.9, z / (2 * threshold)))`.
pub proof fn lemma_judged_from_minimum(
    raw: SensorData,
    history: Seq<int>,
    min_samples: int,
    threshold: int,
)
    requires
        history.len() >= min_samples,
        std_dev_of(history) > 0,
        threshold > 0,
    ensures
        ({
            let out = processed_reading(raw, history, min_samples, threshold);
            let z = abs_int(raw.value - mean_of(history)) * 1000 / std_dev_of(history);
            let share = z * 1000 / (2 * threshold);
            let doubt = if share > 900 {
                900
            } else {
                share
            };
            &&& out.is_anomaly == (z > threshold)
            &&& out.confidence == if 1000 - doubt < 100 {
                100
            } else {
                1000 - doubt
            }
        }),
{
    lemma_confidence_range(raw.value as int, mean_of(history), std_dev_of(history), threshold);
}

/// True when the processor takes the reading's value into its stream.
pub open spec fn takes_sample(value: i64, history: Seq<int>) -> bool {
    -VALUE_LIMIT <= value <= VALUE_LIMIT && history.len() < SAMPLE_CAPACITY
}

/// The request that an anomalous reading calls for at `now_ms`.
pub open spec fn is_request_for(
    command: ActuatorCommand,
    data: SensorData,
    now_ms: u64,
    horizon_ms: u64,
) -> bool {
    &&& command.command_id@ == "cmd_"@ + data.sensor_id@
    &&& command.actuator_id@ == data.sensor_id@
    &&& command.control_command.command_type@ == "adjust_position"@
    &&& command.control_command.payload matches Some(text) && text@ == "new_target_position"@
    &&& command.control_command.timestamp == now_ms
    &&& command.control_command.value == data.value
    &&& command.priority == REQUEST_PRIORITY
    &&& command.deadline == now_ms + horizon_ms
}

/// Most processing times the timing window keeps.
pub const TIMING_WINDOW: usize = 1000;

/// After how many more processing times the window is summed up.
pub const TIMING_STRIDE: usize = 100;

/// Smallest, largest and mean processing time in the window, in nanoseconds.
#[derive(Debug, Clone, Copy, PartialEq, Eq, Structural)]
pub struct TimingSummary {
    pub min: u64,
    pub max: u64,
    pub avg: u64,
    pub samples: usize,
}

/// What recording one processing time says about it.
#[derive(Debug, Clone, Copy, PartialEq, Eq, Structural)]
pub struct TimingNote {
    /// Distance to the processing time before it, if there was one.
    pub jitter: Option<u64>,
    /// The summary of the window, each time its length is a multiple of the stride.
    pub summary: Option<TimingSummary>,
}

/// The last processing times of the stage, in nanoseconds, oldest first.
#[derive(Debug)]
pub struct TimingWindow {
    durations: Vec<u64>,
    previous: Option<u64>,
}

/// The window after one more processing time: the time joins at the end, and
/// the oldest leaves if the window would else outgrow `TIMING_WINDOW`.
pub open spec fn window_after(durations: Seq<u64>, elapsed_ns: u64) -> Seq<u64> {
    if durations.len() >= TIMING_WINDOW {
        durations.push(elapsed_ns).drop_first()
    } else {
        durations.push(elapsed_ns)
    }
}

/// Distance between two processing times.
pub open spec fn jitter_between(elapsed_ns: u64, previous_ns: u64) -> u64 {
    if elapsed_ns > previous_ns {
        (elapsed_ns - previous_ns) as u64
    } else {
        (previous_ns - elapsed_ns) as u64
    }
}

/// The summary of a window.
pub open spec fn summary_of_window(durations: Seq<u64>) -> TimingSummary {
    TimingSummary {
        min: seq_min(as_ints(durations)) as u64,
        max: seq_max(as_ints(durations)) as u64,
        avg: (seq_sum(as_ints(durations)) / (durations.len() as int)) as u64,
        samples: durations.len() as usize,
    }
}

impl TimingWindow {
    /// The processing times in the window, oldest first.
    pub closed spec fn durations(&self) -> Seq<u64> {
        self.durations@
    }

    /// The processing time recorded last, if any.
    pub closed spec fn previous(&self) -> Option<u64> {
        self.previous
    }

    /// The window never outgrows `TIMING_WINDOW`.
    pub closed spec fn wf(&self) -> bool {
        self.durations.len() <= TIMING_WINDOW
    }

    /// An empty window.
    pub fn new() -> (window: Self)
        ensures
            window.wf(),
            window.durations() == Seq::<u64>::empty(),
            window.previous() is None,
    {
        TimingWindow { durations: Vec::new(), previous: None }
    }

    /// Records one processing time.
    pub fn record(&mut self, elapsed_ns: u64) -> (note: TimingNote)
        requires
            old(self).wf(),
        ensures
            final(self).wf(),
            final(self).durations() == window_after(old(self).durations(), elapsed_ns),
            final(self).previous() == Some(elapsed_ns),
            note.jitter == match old(self).previous() {
                Some(previous_ns) => Some(jitter_between(elapsed_ns, previous_ns)),
                None => None,
            },
            note.summary == if final(self).durations().len() % (TIMING_STRIDE as nat) == 0 {
                Some(summary_of_window(final(self).durations()))
            } else {
                None
            },
    {
        let jitter = match self.previous {
            Some(previous_ns) => Some(
                if elapsed_ns > previous_ns {
                    elapsed_ns - previous_ns
                } else {
                    previous_ns - elapsed_ns
                },
            ),
            None => None,
        };
        self.previous = Some(elapsed_ns);
        self.durations.push(elapsed_ns);
        if self.durations.len() > TIMING_WINDOW {
            self.durations.remove(0);
            proof {
                assert(self.durations@ =~= old(self).durations@.push(elapsed_ns).drop_first());
            }
        }
        let summary = if self.durations.len() % TIMING_STRIDE == 0 {
            let sum: u128 = total(&self.durations);
            let count: usize = self.durations.len();
            let mean: u128 = sum / (count as u128);
            proof {
                let ints = as_ints(self.durations@);
                crate::numeric::lemma_seq_min_max(ints);
                crate::numeric::lemma_sum_bounds(ints, u64::MAX as int);
                assert(mean <= u64::MAX) by (nonlinear_arith)
                    requires
                        mean == sum / (count as u128),
                        sum <= count * u64::MAX,
                        count >= 1,
                ;
            }
            Some(
                TimingSummary {
                    min: smallest(&self.durations),
                    max: largest(&self.durations),
                    avg: mean as u64,
                    samples: count,
                },
            )
        } else {
            None
        };
        TimingNote { jitter, summary }
    }
}

/// The data processor.
pub struct DataProcessor {
    engine: StatisticsEngine,
    window_size: usize,
    min_samples: u64,
    horizon_ms: u64,
    thresholds: Thresholds,
}

/// What one reading gives rise to: the filtered reading to pass on, the
/// timing sample of the processing, and a request if the reading is an
/// anomaly; in place of the request an error, where it could not be stamped.
pub struct Processed {
    pub reading: SensorData,
    pub sample: PerformanceMetrics,
    pub request: Result<Option<ActuatorCommand>, ClockError>,
}

impl DataProcessor {
    /// Every value taken from the sensor so far, oldest first.
    pub closed spec fn history_of(&self, sensor_id: Seq<char>) -> Seq<int> {
        self.engine.history_of(sensor_id)
    }

    /// The anomaly thresholds in force.
    pub closed spec fn thresholds(&self) -> Thresholds {
        self.thresholds
    }

    /// Samples a stream must have before its readings are judged.
    pub closed spec fn min_samples(&self) -> u64 {
        self.min_samples
    }

    /// Time an actuation request is given, in milliseconds.
    pub closed spec fn horizon_ms(&self) -> u64 {
        self.horizon_ms
    }

    /// The window size the processor was made with.
    pub closed spec fn window_size(&self) -> usize {
        self.window_size
    }

    /// The statistics are well formed and every threshold is positive.
    pub closed spec fn wf(&self) -> bool {
        self.engine.wf() && self.thresholds.all_positive()
    }

    /// In a well-formed processor every threshold is positive and every
    /// stream is within the limits of an accumulator, so that the mean of a
    /// stream is within `VALUE_LIMIT` of zero.
    pub proof fn lemma_wf_bounds(&self, sensor_id: Seq<char>)
        requires
            self.wf(),
        ensures
            self.thresholds().all_positive(),
            within_limit(self.history_of(sensor_id)),
            self.history_of(sensor_id).len() <= SAMPLE_CAPACITY,
            -VALUE_LIMIT <= mean_of(self.history_of(sensor_id)) <= VALUE_LIMIT,
    {
        self.engine.lemma_history_within_limit(sensor_id);
        if self.history_of(sensor_id).len() > 0 {
            crate::stats::lemma_mean_is_average(self.history_of(sensor_id));
        }
    }

    /// True when the two processors differ in nothing but their streams.
    pub open spec fn same_settings(&self, other: &Self) -> bool {
        &&& self.thresholds() == other.thresholds()
        &&& self.min_samples() == other.min_samples()
        &&& self.horizon_ms() == other.horizon_ms()
        &&& self.window_size() == other.window_size()
    }

    /// A processor that has seen no reading, with the initial thresholds, a
    /// minimum of 10 samples and a request horizon of 2 seconds.
    pub fn new(window_size: usize) -> (processor: Self)
        ensures
            processor.wf(),
            processor.window_size() == window_size,
            processor.thresholds() == Thresholds::initial(),
            processor.min_samples() == DEFAULT_MIN_SAMPLES,
            processor.horizon_ms() == DEFAULT_HORIZON_MS,
            forall|id: Seq<char>| processor.history_of(id) == Seq::<int>::empty(),
    {
        DataProcessor {
            engine: StatisticsEngine::new(),
            window_size,
            min_samples: DEFAULT_MIN_SAMPLES,
            horizon_ms: DEFAULT_HORIZON_MS,
            thresholds: Thresholds { force: 2500, position: 3000, velocity: 2800, temperature: 3500 },
        }
    }

    /// The same processor with another minimum sample count.
    pub fn with_min_samples(self, min_samples: u64) -> (processor: Self)
        requires
            self.wf(),
        ensures
            processor.wf(),
            processor.min_samples() == min_samples,
            processor.thresholds() == self.thresholds(),
            processor.horizon_ms() == self.horizon_ms(),
            processor.window_size() == self.window_size(),
            forall|id: Seq<char>| processor.history_of(id) == self.history_of(id),
    {
        let mut processor = self;
        processor.min_samples = min_samples;
        processor
    }

    /// The same processor with another request horizon, in milliseconds.
    pub fn with_deadline_horizon(self, horizon_ms: u64) -> (processor: Self)
        requires
            self.wf(),
        ensures
            processor.wf(),
            processor.horizon_ms() == horizon_ms,
            processor.thresholds() == self.thresholds(),
            processor.min_samples() == self.min_samples(),
            processor.window_size() == self.window_size(),
            forall|id: Seq<char>| processor.history_of(id) == self.history_of(id),
    {
        let mut processor = self;
        processor.horizon_ms = horizon_ms;
        processor
    }

    /// The threshold in force for one kind of sensor.
    pub fn threshold(&self, kind: SensorType) -> (threshold: i64)
        ensures
            threshold == self.thresholds().of(kind),
    {
        match kind {
            SensorType::Force => self.thresholds.force,
            SensorType::Position => self.thresholds.position,
            SensorType::Velocity => self.thresholds.velocity,
            SensorType::Temperature => self.thresholds.temperature,
        }
    }

    /// Processes one reading.
    ///
    /// The reading's value is taken into the stream of its sensor and the
    /// reading comes back as `processed_reading` says. A value further than
    /// `VALUE_LIMIT` from zero, or one for a stream that is full, is not
    /// taken: the reading then comes back as it came and the timing sample
    /// is marked as failed. Other streams are never touched.
    pub fn process(&mut self, raw_data: SensorData) -> (out: (SensorData, PerformanceMetrics))
        requires
            old(self).wf(),
        ensures
            final(self).wf(),
            final(self).same_settings(old(self)),
            forall|other: Seq<char>|
                other != raw_data.sensor_id@ ==> final(self).history_of(other) == old(self).history_of(other),
            ({
                let before = old(self).history_of(raw_data.sensor_id@);
                let after = final(self).history_of(raw_data.sensor_id@);
                if takes_sample(raw_data.value, before) {
                    &&& after == before.push(raw_data.value as int)
                    &&& filters_to(
                        raw_data,
                        after,
                        old(self).min_samples() as int,
                        old(self).thresholds().of(raw_data.reading_type) as int,
                        out.0,
                    )
                } else {
                    &&& after == before
                    &&& out.0 == raw_data
                }
            }),
            0 <= raw_data.confidence <= 1000 ==> 0 <= out.0.confidence <= 1000,
            out.1.operation@ == "data_processing"@,
            out.1.success == takes_sample(raw_data.value, old(self).history_of(raw_data.sensor_id@)),
            out.1.end_time is Some,
            out.1.duration_ms is Some,
    {
        let mut metrics = PerformanceMetrics::new("data_processing");
        let mut data = raw_data;
        let threshold = self.threshold(data.reading_type);
        match self.engine.update(&data.sensor_id, data.value) {
            Ok(summary) => {
                if summary.count >= self.min_samples {
                    let (is_anomaly, confidence) = assess(
                        data.value,
                        summary.mean,
                        summary.std_dev,
                        threshold,
                    );
                    data.is_anomaly = is_anomaly;
                    data.confidence = confidence;
                }
                data.value = summary.mean;
                proof {
                    let after = self.engine.history_of(raw_data.sensor_id@);
                    self.engine.lemma_history_within_limit(raw_data.sensor_id@);
                    crate::stats::lemma_mean_is_average(after);
                    lemma_confidence_range(
                        raw_data.value as int,
                        mean_of(after),
                        std_dev_of(after),
                        threshold as int,
                    );
                }
                metrics.complete(true);
            },
            Err(_) => {
                metrics.complete(false);
            },
        }
        (data, metrics)
    }

    /// The request that a reading calls for at `now_ms`: one for an anomalous
    /// reading, none for any other.
    pub fn actuator_command_at(&self, sensor_data: &SensorData, now_ms: u64) -> (request: Option<
        ActuatorCommand,
    >)
        ensures
            request is Some == sensor_data.is_anomaly,
            request matches Some(command) ==> is_request_for(
                command,
                *sensor_data,
                now_ms,
                self.horizon_ms(),
            ),
    {
        if sensor_data.is_anomaly {
            Some(
                ActuatorCommand {
                    command_id: String::from_str("cmd_").concat(sensor_data.sensor_id.as_str()),
                    actuator_id: sensor_data.sensor_id.clone(),
                    control_command: ControlCommand {
                        command_type: String::from_str("adjust_position"),
                        payload: Some(String::from_str("new_target_position")),
                        timestamp: now_ms as u128,
                        value: sensor_data.value,
                    },
                    priority: REQUEST_PRIORITY,
                    deadline: now_ms as u128 + self.horizon_ms as u128,
                },
            )
        } else {
            None
        }
    }

    /// The request that a reading calls for now: as `actuator_command_at`
    /// for whatever the wall clock reads. A reading that is no anomaly calls
    /// for none, and the clock is not read. For an anomaly the request is
    /// made unless the clock reads earlier than the Unix epoch.
    pub fn generate_actuator_command(&self, sensor_data: &SensorData) -> (outcome: Result<
        Option<ActuatorCommand>,
        ClockError,
    >)
        ensures
            !sensor_data.is_anomaly ==> outcome == Ok::<Option<ActuatorCommand>, ClockError>(None),
            sensor_data.is_anomaly ==> match outcome {
                Ok(Some(command)) => exists|now_ms: u64|
                    is_request_for(command, *sensor_data, now_ms, self.horizon_ms()),
                Ok(None) => false,
                Err(error) => error == ClockError::BeforeEpoch,
            },
    {
        if !sensor_data.is_anomaly {
            return Ok(None);
        }
        match current_timestamp_ms() {
            Some(now_ms) => {
                let request = self.actuator_command_at(sensor_data, now_ms);
                proof {
                    assert(is_request_for(
                        request->Some_0,
                        *sensor_data,
                        now_ms,
                        self.horizon_ms(),
                    ));
                }
                Ok(request)
            },
            None => Err(ClockError::BeforeEpoch),
        }
    }

    /// Sets the anomaly threshold of one kind of sensor. A threshold that is
    /// not positive is refused and changes nothing.
    pub fn adjust_threshold(&mut self, sensor_type: SensorType, new_threshold: i64) -> (outcome:
        Result<(), ThresholdError>)
        requires
            old(self).wf(),
        ensures
            final(self).wf(),
            final(self).min_samples() == old(self).min_samples(),
            final(self).horizon_ms() == old(self).horizon_ms(),
            final(self).window_size() == old(self).window_size(),
            forall|id: Seq<char>| final(self).history_of(id) == old(self).history_of(id),
            match outcome {
                Ok(()) => new_threshold > 0 && final(self).thresholds() == old(self).thresholds().with(sensor_type, new_threshold),
                Err(ThresholdError::NotPositive) => new_threshold <= 0 && final(self).thresholds()
                    == old(self).thresholds(),
            },
    {
        if new_threshold <= 0 {
            return Err(ThresholdError::NotPositive);
        }
        match sensor_type {
            SensorType::Force => {
                self.thresholds.force = new_threshold;
            },
            SensorType::Position => {
                self.thresholds.position = new_threshold;
            },
            SensorType::Velocity => {
                self.thresholds.velocity = new_threshold;
            },
            SensorType::Temperature => {
                self.thresholds.temperature = new_threshold;
            },
        }
        Ok(())
    }

    /// One turn of the processing stage: processes the reading and makes the
    /// request it calls for.
    pub fn handle_reading(&mut self, raw_data: SensorData) -> (out: Processed)
        requires
            old(self).wf(),
        ensures
            final(self).wf(),
            final(self).same_settings(old(self)),
            forall|other: Seq<char>|
                other != raw_data.sensor_id@ ==> final(self).history_of(other) == old(self).history_of(other),
            ({
                let before = old(self).history_of(raw_data.sensor_id@);
                let after = final(self).history_of(raw_data.sensor_id@);
                if takes_sample(raw_data.value, before) {
                    &&& after == before.push(raw_data.value as int)
                    &&& filters_to(
                        raw_data,
                        after,
                        old(self).min_samples() as int,
                        old(self).thresholds().of(raw_data.reading_type) as int,
                        out.reading,
                    )
                } else {
                    &&& after == before
                    &&& out.reading == raw_data
                }
            }),
            out.sample.operation@ == "data_processing"@,
            out.sample.success == takes_sample(
                raw_data.value,
                old(self).history_of(raw_data.sensor_id@),
            ),
            !out.reading.is_anomaly ==> out.request == Ok::<Option<ActuatorCommand>, ClockError>(
                None,
            ),
            out.reading.is_anomaly ==> match out.request {
                Ok(Some(command)) => exists|now_ms: u64|
                    is_request_for(command, out.reading, now_ms, old(self).horizon_ms()),
                Ok(None) => false,
                Err(error) => error == ClockError::BeforeEpoch,
            },
    {
        let (reading, sample) = self.process(raw_data);
        let request = self.generate_actuator_command(&reading);
        Processed { reading, sample, request }
    }
}

} // verus!
