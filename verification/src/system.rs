//! The actuator side: the control tick that the scheduler drives, and the
//! watch over the deadlines of queued commands.

use crate::controller::{
    integral_after, step_verdict, ControlError, PIDController,
};
use crate::data_types::{ActuatorCommand, ActuatorFeedback, ActuatorStatus, ControlCommand, SensorData};
use crate::text::{hundredths_text, push_hundredths, push_thousandths, thousandths_text};
use vstd::prelude::*;
use vstd::string::StringExecFns;

verus! {

/// The value the control loop steers towards, in thousandths.
pub const CONTROL_SETPOINT: i64 = 50_000;

/// The time step of the control loop, and the interval of its scheduler, in
/// milliseconds.
pub const CONTROL_STEP_MS: u64 = 5;

/// The gains of the control loop, in thousandths: 1.0, 0.1 and 0.05.
pub const CONTROL_KP: i64 = 1000;

pub const CONTROL_KI: i64 = 100;

pub const CONTROL_KD: i64 = 50;

/// A count raised by one, held at the largest value.
pub open spec fn bumped(count: u64) -> u64 {
    if count < u64::MAX {
        (count + 1) as u64
    } else {
        count
    }
}

/// Counts the commands that were let through and those that came too late.
#[derive(Debug, Clone, Copy, PartialEq, Eq, Structural)]
pub struct DeadlineMonitor {
    pub executed: u64,
    pub missed: u64,
}

impl DeadlineMonitor {
    /// A monitor that has seen no command.
    pub fn new() -> (monitor: Self)
        ensures
            monitor == (DeadlineMonitor { executed: 0, missed: 0 }),
    {
        DeadlineMonitor { executed: 0, missed: 0 }
    }

    /// Decides at `now_ms` whether a command may still be carried out. A
    /// command whose deadline has passed is never let through: it is counted
    /// as a miss and must be dropped.
    pub fn check(&mut self, command: &ActuatorCommand, now_ms: u128) -> (in_time: bool)
        ensures
            in_time == (now_ms <= command.deadline),
            in_time ==> *final(self) == (DeadlineMonitor {
                executed: bumped(old(self).executed),
                ..*old(self)
            }),
            !in_time ==> *final(self) == (DeadlineMonitor {
                missed: bumped(old(self).missed),
                ..*old(self)
            }),
    {
        if command.is_expired(now_ms) {
            if self.missed < u64::MAX {
                self.missed = self.missed + 1;
            }
            false
        } else {
            if self.executed < u64::MAX {
                self.executed = self.executed + 1;
            }
            true
        }
    }
}

/// The message of the feedback on a command carried out for a reading: the
/// command's value in full, the reading's value with two places.
pub open spec fn execution_message(command: ControlCommand, sensor_value: i64) -> Seq<char> {
    "Executed command "@ + command.command_type@ + " with value "@ + thousandths_text(
        command.value as int,
    ) + " for sensor "@ + hundredths_text(sensor_value as int)
}

/// The feedback on a command carried out at `now_ms` for a reading.
pub fn execution_feedback(command: &ControlCommand, sensor_value: i64, now_ms: u128) -> (feedback:
    ActuatorFeedback)
    ensures
        feedback.timestamp == now_ms,
        feedback.actuator_id@ == "actuator_1"@,
        feedback.status == ActuatorStatus::Normal,
        feedback.message matches Some(text) && text@ == execution_message(*command, sensor_value),
{
    let mut message = String::from_str("Executed command ");
    message.append(command.command_type.as_str());
    message.append(" with value ");
    push_thousandths(&mut message, command.value);
    message.append(" for sensor ");
    push_hundredths(&mut message, sensor_value);
    ActuatorFeedback {
        timestamp: now_ms,
        actuator_id: String::from_str("actuator_1"),
        status: ActuatorStatus::Normal,
        message: Some(message),
    }
}

/// One tick of the control loop at `now_ms`. Without a reading nothing
/// happens. With one, the controller takes a step from the setpoint and the
/// reading's value, and the command comes back with the feedback on it; a
/// refused step comes back as its error and leaves the controller as it was.
pub fn control_tick(
    controller: &mut PIDController,
    latest: Option<&SensorData>,
    setpoint: i64,
    dt_ms: u64,
    now_ms: u128,
) -> (outcome: Option<Result<(ControlCommand, ActuatorFeedback), ControlError>>)
    requires
        old(controller).wf(),
    ensures
        final(controller).wf(),
        final(controller).gains() == old(controller).gains(),
        match latest {
            None => {
                &&& outcome is None
                &&& final(controller).previous_error() == old(controller).previous_error()
                &&& final(controller).integral() == old(controller).integral()
            },
            Some(reading) => {
                let verdict = step_verdict(
                    old(controller).gains(),
                    old(controller).previous_error(),
                    old(controller).integral(),
                    setpoint,
                    reading.value,
                    dt_ms,
                );
                match outcome {
                    Some(Ok((command, feedback))) => {
                        &&& verdict == Ok::<int, ControlError>(command.value as int)
                        &&& command.command_type@ == "PID_OUTPUT"@
                        &&& command.payload is None
                        &&& command.timestamp == now_ms
                        &&& feedback.timestamp == now_ms
                        &&& feedback.actuator_id@ == "actuator_1"@
                        &&& feedback.status == ActuatorStatus::Normal
                        &&& feedback.message matches Some(text) && text@ == execution_message(
                            command,
                            reading.value,
                        )
                        &&& final(controller).previous_error() == setpoint - reading.value
                        &&& final(controller).integral() == integral_after(
                            old(controller).integral(),
                            setpoint - reading.value,
                            dt_ms as int,
                        )
                    },
                    Some(Err(error)) => {
                        &&& verdict == Err::<int, ControlError>(error)
                        &&& final(controller).previous_error() == old(controller).previous_error()
                        &&& final(controller).integral() == old(controller).integral()
                    },
                    None => false,
                }
            },
        },
{
    match latest {
        None => None,
        Some(reading) => {
            match controller.compute_at(setpoint, reading.value, dt_ms, now_ms) {
                Ok(command) => {
                    let feedback = execution_feedback(&command, reading.value, now_ms);
                    Some(Ok((command, feedback)))
                },
                Err(error) => Some(Err(error)),
            }
        },
    }
}

} // verus!
