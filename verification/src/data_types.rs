//! The records that travel between the stages of the pipeline.
//!
//! Real-valued fields (`value`, `confidence`, `duration_ms`) hold thousandths
//! of their unit; timestamps and deadlines are milliseconds since the Unix epoch.

use crate::clock::{current_timestamp_ms, elapsed_micros, instant_now};
use crate::numeric::abs_int;
use crate::text::{hundredths_text, push_hundredths};
use std::time::Instant;
use vstd::prelude::*;
use vstd::string::StringExecFns;

verus! {

/// What a sensor measures.
#[derive(Debug, Clone, Copy, PartialEq, Eq, Hash, Structural)]
pub enum SensorType {
    /// Force, in newtons.
    Force,
    /// Position, in millimetres.
    Position,
    /// Velocity, in millimetres per second.
    Velocity,
    /// Temperature, in degrees Celsius.
    Temperature,
}

/// One timestamped observation. The processor replaces `value` by the filtered
/// value and recomputes `is_anomaly` and `confidence`.
#[derive(Debug, Clone)]
pub struct SensorData {
    pub timestamp: u128,
    pub sensor_id: String,
    pub reading_type: SensorType,
    /// The reading, in thousandths of the sensor's unit.
    pub value: i64,
    pub is_anomaly: bool,
    /// Confidence in the reading, in thousandths: 0 to 1000.
    pub confidence: i64,
}

/// What an actuator is told to do.
#[derive(Debug, Clone)]
pub struct ControlCommand {
    pub command_type: String,
    pub payload: Option<String>,
    pub timestamp: u128,
    /// The commanded value, in thousandths.
    pub value: i64,
}

/// A control command addressed to one actuator, with its urgency and the
/// time after which it must no longer be carried out.
#[derive(Debug, Clone)]
pub struct ActuatorCommand {
    pub command_id: String,
    pub actuator_id: String,
    pub control_command: ControlCommand,
    /// 0 to 255; higher is more urgent.
    pub priority: u8,
    /// Absolute deadline, in milliseconds since the Unix epoch.
    pub deadline: u128,
}

/// How an actuator reports it is doing.
#[derive(Debug, Clone, Copy, PartialEq, Eq, Structural)]
pub enum ActuatorStatus {
    Normal,
    Adjusting,
    Warning,
    Error,
}

/// What the actuator side sends back to the sensing side.
#[derive(Debug, Clone)]
pub struct ActuatorFeedback {
    pub timestamp: u128,
    pub actuator_id: String,
    pub status: ActuatorStatus,
    pub message: Option<String>,
}

/// One timed run of a named operation.
#[derive(Debug, Clone)]
pub struct PerformanceMetrics {
    pub operation: String,
    pub start_time: Instant,
    pub end_time: Option<Instant>,
    /// How long the run took, in thousandths of a millisecond.
    pub duration_ms: Option<u64>,
    pub success: bool,
}

/// Least confidence given to a reading: that of a reading far from the mean,
/// and the fixed floor for a reading whose stream has no spread to judge it by.
pub const CONFIDENCE_MIN: i64 = 100;

/// Full confidence.
pub const CONFIDENCE_MAX: i64 = 1000;

/// True when a reading can be judged: the stream has spread and the
/// threshold is positive.
pub open spec fn can_assess(std_dev: int, threshold: int) -> bool {
    std_dev > 0 && threshold > 0
}

/// Distance of `value` from `mean` in standard deviations, in thousandths
/// and rounded down.
pub open spec fn z_score_of(value: int, mean: int, std_dev: int) -> int {
    abs_int(value - mean) * 1000 / std_dev
}

/// True when the reading is an anomaly: it can be judged and its z-score
/// exceeds the threshold.
pub open spec fn is_outlier(value: int, mean: int, std_dev: int, threshold: int) -> bool {
    can_assess(std_dev, threshold) && z_score_of(value, mean, std_dev) > threshold
}

/// Confidence in a reading, in thousandths: `max(0.1, 1 - min(0.9, z / (2 * threshold)))`
/// where it can be judged, the floor where it cannot.
pub open spec fn confidence_of(value: int, mean: int, std_dev: int, threshold: int) -> int {
    if can_assess(std_dev, threshold) {
        let ratio = z_score_of(value, mean, std_dev) * 1000 / (2 * threshold);
        let doubt = if ratio > 900 {
            900
        } else {
            ratio
        };
        if 1000 - doubt < CONFIDENCE_MIN {
            CONFIDENCE_MIN as int
        } else {
            1000 - doubt
        }
    } else {
        CONFIDENCE_MIN as int
    }
}

/// Confidence never leaves the range from 0.1 to 1. A reading that cannot be
/// judged has the floor of 0.1, and a judged reading whose z-score is at
/// least a tenth of the threshold has at most 0.95.
pub proof fn lemma_confidence_range(value: int, mean: int, std_dev: int, threshold: int)
    ensures
        100 <= confidence_of(value, mean, std_dev, threshold) <= 1000,
        !can_assess(std_dev, threshold) ==> confidence_of(value, mean, std_dev, threshold) == 100,
        can_assess(std_dev, threshold) && z_score_of(value, mean, std_dev) * 10 >= threshold
            ==> 100 <= confidence_of(value, mean, std_dev, threshold) <= 950,
{
    if can_assess(std_dev, threshold) {
        let z = z_score_of(value, mean, std_dev);
        assert(z >= 0) by (nonlinear_arith)
            requires
                z == abs_int(value - mean) * 1000 / std_dev,
                abs_int(value - mean) >= 0,
                std_dev > 0,
        ;
        let ratio = z * 1000 / (2 * threshold);
        assert(ratio >= 0) by (nonlinear_arith)
            requires
                ratio == z * 1000 / (2 * threshold),
                z >= 0,
                threshold > 0,
        ;
        if z * 10 >= threshold {
            assert(ratio >= 50) by (nonlinear_arith)
                requires
                    ratio == z * 1000 / (2 * threshold),
                    z * 10 >= threshold,
                    threshold > 0,
            ;
        }
    }
}

/// Judges a reading against the statistics of its stream: whether it is an
/// anomaly, and the confidence in it.
pub fn assess(value: i64, mean: i64, std_dev: i64, threshold: i64) -> (verdict: (bool, i64))
    ensures
        verdict.0 == is_outlier(value as int, mean as int, std_dev as int, threshold as int),
        verdict.1 == confidence_of(value as int, mean as int, std_dev as int, threshold as int),
        100 <= verdict.1 <= 1000,
{
    proof {
        lemma_confidence_range(value as int, mean as int, std_dev as int, threshold as int);
    }
    if std_dev > 0 && threshold > 0 {
        let gap: i128 = if value >= mean {
            value as i128 - mean as i128
        } else {
            mean as i128 - value as i128
        };
        let scaled: i128 = gap * 1000;
        let z: i128 = scaled / (std_dev as i128);
        assert(0 <= z <= scaled) by (nonlinear_arith)
            requires
                z == scaled / (std_dev as i128),
                scaled >= 0,
                std_dev > 0,
        ;
        let ratio: i128 = (z * 1000) / (2 * (threshold as i128));
        let doubt: i128 = if ratio > 900 {
            900
        } else {
            ratio
        };
        assert(ratio >= 0) by (nonlinear_arith)
            requires
                ratio == (z * 1000) / (2 * (threshold as i128)),
                z >= 0,
                threshold > 0,
        ;
        let confidence: i128 = if 1000 - doubt < CONFIDENCE_MIN as i128 {
            CONFIDENCE_MIN as i128
        } else {
            1000 - doubt
        };
        (z > threshold as i128, confidence as i64)
    } else {
        (false, CONFIDENCE_MIN)
    }
}

impl SensorData {
    /// Recomputes `is_anomaly` and `confidence` from the reading's own value
    /// and the mean and standard deviation of its stream. Where the stream has
    /// no spread, or the threshold is not positive, the reading is no anomaly
    /// and its confidence is the floor.
    pub fn detect_anomaly(&mut self, mean: i64, std_dev: i64, threshold: i64)
        ensures
            *final(self) == (SensorData {
                is_anomaly: is_outlier(
                    old(self).value as int,
                    mean as int,
                    std_dev as int,
                    threshold as int,
                ),
                confidence: confidence_of(
                    old(self).value as int,
                    mean as int,
                    std_dev as int,
                    threshold as int,
                ) as i64,
                ..*old(self)
            }),
    {
        let (is_anomaly, confidence) = assess(self.value, mean, std_dev, threshold);
        self.is_anomaly = is_anomaly;
        self.confidence = confidence;
    }
}

/// The command that a kind of sensor calls for.
pub open spec fn command_type_of(kind: SensorType) -> Seq<char> {
    match kind {
        SensorType::Force => "AdjustForce"@,
        SensorType::Position => "MovePosition"@,
        SensorType::Velocity => "SetVelocity"@,
        SensorType::Temperature => "RegulateTemperature"@,
    }
}

/// The payload that carries a value, written with two places, the third
/// rounded to the nearest and a five away from zero: `{"value": 12.35}` for
/// 12.345.
pub open spec fn payload_of(value: int) -> Seq<char> {
    "{\"value\": "@ + hundredths_text(value) + "}"@
}

/// Time a command made from a reading is given, in milliseconds.
pub const COMMAND_HORIZON_MS: u64 = 1000;

impl ActuatorCommand {
    /// The command that answers a reading, made at `now_ms`: addressed to the
    /// sensor's actuator, of the type its kind calls for, carrying the
    /// reading's value, urgent if the reading is an anomaly, and due one
    /// second after `now_ms`.
    pub fn from_sensor_data_at(data: &SensorData, now_ms: u64) -> (command: Self)
        ensures
            command.command_id@ == "cmd_"@ + data.sensor_id@,
            command.actuator_id@ == "actuator_for_"@ + data.sensor_id@,
            command.control_command.command_type@ == command_type_of(data.reading_type),
            command.control_command.payload matches Some(text) && text@ == payload_of(
                data.value as int,
            ),
            command.control_command.timestamp == data.timestamp,
            command.control_command.value == data.value,
            command.priority == if data.is_anomaly {
                10u8
            } else {
                5u8
            },
            command.deadline == now_ms + COMMAND_HORIZON_MS,
    {
        let command_id = String::from_str("cmd_").concat(data.sensor_id.as_str());
        let actuator_id = String::from_str("actuator_for_").concat(data.sensor_id.as_str());
        let command_type = match data.reading_type {
            SensorType::Force => String::from_str("AdjustForce"),
            SensorType::Position => String::from_str("MovePosition"),
            SensorType::Velocity => String::from_str("SetVelocity"),
            SensorType::Temperature => String::from_str("RegulateTemperature"),
        };
        let mut payload = String::from_str("{\"value\": ");
        push_hundredths(&mut payload, data.value);
        payload.append("}");
        let priority: u8 = if data.is_anomaly {
            10
        } else {
            5
        };
        ActuatorCommand {
            command_id,
            actuator_id,
            control_command: ControlCommand {
                command_type,
                payload: Some(payload),
                timestamp: data.timestamp,
                value: data.value,
            },
            priority,
            deadline: now_ms as u128 + COMMAND_HORIZON_MS as u128,
        }
    }

    /// The command that answers a reading, made now: as `from_sensor_data_at`
    /// for whatever the wall clock reads, and nothing when the clock reads
    /// earlier than the Unix epoch.
    pub fn from_sensor_data(data: &SensorData) -> (made: Option<Self>)
        ensures
            made matches Some(command) ==> {
                &&& command.command_id@ == "cmd_"@ + data.sensor_id@
                &&& command.actuator_id@ == "actuator_for_"@ + data.sensor_id@
                &&& command.control_command.command_type@ == command_type_of(data.reading_type)
                &&& command.control_command.payload matches Some(text) && text@ == payload_of(
                    data.value as int,
                )
                &&& command.control_command.timestamp == data.timestamp
                &&& command.control_command.value == data.value
                &&& command.priority == if data.is_anomaly {
                    10u8
                } else {
                    5u8
                }
                &&& command.deadline >= COMMAND_HORIZON_MS
            },
    {
        match current_timestamp_ms() {
            Some(now_ms) => Some(Self::from_sensor_data_at(data, now_ms)),
            None => None,
        }
    }

    /// True when the deadline has passed at `now_ms`: the command must be
    /// dropped and counted as a miss, not carried out.
    pub fn is_expired(&self, now_ms: u128) -> (expired: bool)
        ensures
            expired == (now_ms > self.deadline),
    {
        now_ms > self.deadline
    }
}

impl ActuatorFeedback {
    /// The feedback that reports a command as carried out normally at `now_ms`.
    pub fn acknowledge(command: &ActuatorCommand, now_ms: u128) -> (feedback: Self)
        ensures
            feedback.timestamp == now_ms,
            feedback.actuator_id@ == command.actuator_id@,
            feedback.status == ActuatorStatus::Normal,
            feedback.message is None,
    {
        ActuatorFeedback {
            timestamp: now_ms,
            actuator_id: command.actuator_id.clone(),
            status: ActuatorStatus::Normal,
            message: None,
        }
    }
}

impl PerformanceMetrics {
    /// Starts timing `operation` now. The sample is open: it has no end, no
    /// duration, and counts as failed until it is completed.
    pub fn new(operation: &str) -> (sample: Self)
        ensures
            sample.operation@ == operation@,
            sample.end_time is None,
            sample.duration_ms is None,
            !sample.success,
    {
        PerformanceMetrics {
            operation: String::from_str(operation),
            start_time: instant_now(),
            end_time: None,
            duration_ms: None,
            success: false,
        }
    }

    /// Closes the sample with an end instant and the duration measured up to it.
    pub fn complete_at(&mut self, end: Instant, duration: u64, success: bool)
        ensures
            *final(self) == (PerformanceMetrics {
                end_time: Some(end),
                duration_ms: Some(duration),
                success,
                ..*old(self)
            }),
    {
        self.end_time = Some(end);
        self.duration_ms = Some(duration);
        self.success = success;
    }

    /// Closes the sample now: the duration is the monotonic time since it was
    /// started, whatever that turns out to be.
    pub fn complete(&mut self, success: bool)
        ensures
            final(self).operation == old(self).operation,
            final(self).start_time == old(self).start_time,
            final(self).end_time is Some,
            final(self).duration_ms is Some,
            final(self).success == success,
    {
        let end = instant_now();
        let duration = elapsed_micros(&end, &self.start_time);
        self.complete_at(end, duration, success);
    }
}

} // verus!
