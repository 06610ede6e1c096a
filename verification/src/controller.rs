//! The PID controller of one axis.
//!
//! Gains, setpoint, measurement and output are in thousandths; the time step
//! is in milliseconds; the integral is kept exactly, in thousandths times
//! milliseconds, so that no rounding accumulates in it. The output is rounded
//! once, downwards.

use crate::clock::wall_clock_ms;
use crate::data_types::ControlCommand;
use crate::numeric::{div_floor, VALUE_LIMIT};
use vstd::prelude::*;
use vstd::string::StringExecFns;

verus! {

/// Longest time step, in milliseconds.
pub const STEP_LIMIT_MS: u64 = 1_000_000;

/// Largest magnitude of the integral, in thousandths times milliseconds.
pub const INTEGRAL_LIMIT: i128 = 10_000_000_000_000_000_000_000;

/// Why a control step was refused. A refused step leaves the controller as it was.
#[derive(Debug, Clone, Copy, PartialEq, Eq, Structural)]
pub enum ControlError {
    /// The time step is zero.
    InvalidTimeStep,
    /// The time step exceeds `STEP_LIMIT_MS`, or a gain, the setpoint or the
    /// measurement lies further than `VALUE_LIMIT` from zero.
    InputOutOfRange,
    /// The integral would exceed `INTEGRAL_LIMIT`.
    IntegralOutOfRange,
    /// The output does not fit the command's value.
    OutputOutOfRange,
    /// The wall clock reads earlier than the Unix epoch, so the command
    /// cannot be stamped.
    ClockBeforeEpoch,
}

/// The gains of a controller, in thousandths.
#[derive(Debug, Clone, Copy, PartialEq, Eq, Structural)]
pub struct Gains {
    pub kp: i64,
    pub ki: i64,
    pub kd: i64,
}

/// The integral after a step: the old integral plus error times time step.
pub open spec fn integral_after(integral: int, error: int, dt_ms: int) -> int {
    integral + error * dt_ms
}

/// The control law `kp * error + ki * integral + kd * (error - previous) / dt`,
/// in thousandths and rounded down, with `integral` the integral after the step.
pub open spec fn control_output(
    gains: Gains,
    error: int,
    previous_error: int,
    integral: int,
    dt_ms: int,
) -> int {
    (gains.kp * error * 1000 * dt_ms + gains.ki * integral * dt_ms + gains.kd * (error
        - previous_error) * 1_000_000) / (1_000_000 * dt_ms)
}

/// True when a value lies within `VALUE_LIMIT` of zero.
pub open spec fn in_range(value: i64) -> bool {
    -VALUE_LIMIT <= value <= VALUE_LIMIT
}

/// The outcome that a step with these inputs must have, given the
/// controller's gains and state before it.
pub open spec fn step_verdict(
    gains: Gains,
    previous_error: int,
    integral: int,
    setpoint: i64,
    measurement: i64,
    dt_ms: u64,
) -> Result<int, ControlError> {
    let error = setpoint - measurement;
    let after = integral_after(integral, error, dt_ms as int);
    let output = control_output(gains, error, previous_error, after, dt_ms as int);
    if dt_ms == 0 {
        Err(ControlError::InvalidTimeStep)
    } else if dt_ms > STEP_LIMIT_MS || !in_range(gains.kp) || !in_range(gains.ki) || !in_range(
        gains.kd,
    ) || !in_range(setpoint) || !in_range(measurement) {
        Err(ControlError::InputOutOfRange)
    } else if after < -INTEGRAL_LIMIT || after > INTEGRAL_LIMIT {
        Err(ControlError::IntegralOutOfRange)
    } else if output < i64::MIN || output > i64::MAX {
        Err(ControlError::OutputOutOfRange)
    } else {
        Ok(output)
    }
}

/// A PID controller: its gains, the error of the last step and the integral
/// of the error over all steps.
pub struct PIDController {
    kp: i64,
    ki: i64,
    kd: i64,
    prev_error: i64,
    integral: i128,
}

impl PIDController {
    /// The gains the controller was made with.
    pub closed spec fn gains(&self) -> Gains {
        Gains { kp: self.kp, ki: self.ki, kd: self.kd }
    }

    /// The error of the last accepted step; 0 before the first.
    pub closed spec fn previous_error(&self) -> int {
        self.prev_error as int
    }

    /// The integral of the error, in thousandths times milliseconds.
    pub closed spec fn integral(&self) -> int {
        self.integral as int
    }

    /// The state is within the limits that a step can carry.
    pub closed spec fn wf(&self) -> bool {
        &&& -2 * VALUE_LIMIT <= self.prev_error <= 2 * VALUE_LIMIT
        &&& -INTEGRAL_LIMIT <= self.integral <= INTEGRAL_LIMIT
    }

    /// A controller at rest with the given gains.
    pub fn new(kp: i64, ki: i64, kd: i64) -> (controller: Self)
        ensures
            controller.wf(),
            controller.gains() == (Gains { kp, ki, kd }),
            controller.previous_error() == 0,
            controller.integral() == 0,
    {
        PIDController { kp, ki, kd, prev_error: 0, integral: 0 }
    }

    /// The integral of the error, in thousandths times milliseconds.
    pub fn integral_value(&self) -> (integral: i128)
        ensures
            integral == self.integral(),
    {
        self.integral
    }

    /// The error of the last accepted step.
    pub fn previous_error_value(&self) -> (error: i64)
        requires
            self.wf(),
        ensures
            error == self.previous_error(),
    {
        self.prev_error
    }

    /// One control step at `now_ms`.
    ///
    /// On success the command carries the output of the control law and the
    /// controller has taken the step: its integral has grown by error times
    /// time step and its previous error is this step's error. A refused step
    /// changes nothing.
    pub fn compute_at(&mut self, setpoint: i64, measurement: i64, dt_ms: u64, now_ms: u128) -> (outcome:
        Result<ControlCommand, ControlError>)
        requires
            old(self).wf(),
        ensures
            final(self).wf(),
            final(self).gains() == old(self).gains(),
            match outcome {
                Ok(command) => {
                    &&& step_verdict(
                        old(self).gains(),
                        old(self).previous_error(),
                        old(self).integral(),
                        setpoint,
                        measurement,
                        dt_ms,
                    ) == Ok::<int, ControlError>(command.value as int)
                    &&& command.command_type@ == "PID_OUTPUT"@
                    &&& command.payload is None
                    &&& command.timestamp == now_ms
                    &&& final(self).previous_error() == setpoint - measurement
                    &&& final(self).integral() == integral_after(
                        old(self).integral(),
                        setpoint - measurement,
                        dt_ms as int,
                    )
                },
                Err(error) => {
                    &&& step_verdict(
                        old(self).gains(),
                        old(self).previous_error(),
                        old(self).integral(),
                        setpoint,
                        measurement,
                        dt_ms,
                    ) == Err::<int, ControlError>(error)
                    &&& final(self).previous_error() == old(self).previous_error()
                    &&& final(self).integral() == old(self).integral()
                },
            },
    {
        if dt_ms == 0 {
            return Err(ControlError::InvalidTimeStep);
        }
        if dt_ms > STEP_LIMIT_MS || !within(self.kp) || !within(self.ki) || !within(self.kd)
            || !within(setpoint) || !within(measurement) {
            return Err(ControlError::InputOutOfRange);
        }
        let dt: i128 = dt_ms as i128;
        let error: i128 = setpoint as i128 - measurement as i128;
        let kp: i128 = self.kp as i128;
        let ki: i128 = self.ki as i128;
        let kd: i128 = self.kd as i128;
        let change: i128 = error - self.prev_error as i128;
        assert(-2_000_000_000_000_000 <= error * dt <= 2_000_000_000_000_000) by (nonlinear_arith)
            requires
                -2_000_000_000 <= error <= 2_000_000_000,
                1 <= dt <= 1_000_000,
        ;
        let integral: i128 = self.integral + error * dt;
        if integral < -INTEGRAL_LIMIT || integral > INTEGRAL_LIMIT {
            return Err(ControlError::IntegralOutOfRange);
        }
        assert(-2_000_000_000_000_000_000 <= kp * error <= 2_000_000_000_000_000_000)
            by (nonlinear_arith)
            requires
                -1_000_000_000 <= kp <= 1_000_000_000,
                -2_000_000_000 <= error <= 2_000_000_000,
        ;
        let pe: i128 = kp * error;
        assert(-2_000_000_000_000_000_000_000_000_000 <= pe * 1000 * dt
            <= 2_000_000_000_000_000_000_000_000_000) by (nonlinear_arith)
            requires
                -2_000_000_000_000_000_000 <= pe <= 2_000_000_000_000_000_000,
                1 <= dt <= 1_000_000,
        ;
        assert(-10_000_000_000_000_000_000_000_000_000_000 <= ki * integral
            <= 10_000_000_000_000_000_000_000_000_000_000) by (nonlinear_arith)
            requires
                -1_000_000_000 <= ki <= 1_000_000_000,
                -10_000_000_000_000_000_000_000 <= integral <= 10_000_000_000_000_000_000_000,
        ;
        let ii: i128 = ki * integral;
        assert(-10_000_000_000_000_000_000_000_000_000_000_000_000 <= ii * dt
            <= 10_000_000_000_000_000_000_000_000_000_000_000_000) by (nonlinear_arith)
            requires
                -10_000_000_000_000_000_000_000_000_000_000 <= ii
                    <= 10_000_000_000_000_000_000_000_000_000_000,
                1 <= dt <= 1_000_000,
        ;
        assert(-4_000_000_000_000_000_000 <= kd * change <= 4_000_000_000_000_000_000)
            by (nonlinear_arith)
            requires
                -1_000_000_000 <= kd <= 1_000_000_000,
                -4_000_000_000 <= change <= 4_000_000_000,
        ;
        let dc: i128 = kd * change;
        let numerator: i128 = pe * 1000 * dt + ii * dt + dc * 1_000_000;
        let output: i128 = div_floor(numerator, 1_000_000 * dt);
        if output < i64::MIN as i128 || output > i64::MAX as i128 {
            return Err(ControlError::OutputOutOfRange);
        }
        self.integral = integral;
        self.prev_error = error as i64;
        Ok(
            ControlCommand {
                command_type: String::from_str("PID_OUTPUT"),
                payload: None,
                timestamp: now_ms,
                value: output as i64,
            },
        )
    }

    /// One control step now: as `compute_at` for whatever the wall clock
    /// reads. Where the clock reads earlier than the Unix epoch the step is
    /// refused and changes nothing.
    pub fn compute(&mut self, setpoint: i64, measurement: i64, dt_ms: u64) -> (outcome: Result<
        ControlCommand,
        ControlError,
    >)
        requires
            old(self).wf(),
        ensures
            final(self).wf(),
            final(self).gains() == old(self).gains(),
            match outcome {
                Ok(command) => {
                    &&& step_verdict(
                        old(self).gains(),
                        old(self).previous_error(),
                        old(self).integral(),
                        setpoint,
                        measurement,
                        dt_ms,
                    ) == Ok::<int, ControlError>(command.value as int)
                    &&& command.command_type@ == "PID_OUTPUT"@
                    &&& command.payload is None
                    &&& final(self).previous_error() == setpoint - measurement
                    &&& final(self).integral() == integral_after(
                        old(self).integral(),
                        setpoint - measurement,
                        dt_ms as int,
                    )
                },
                Err(ControlError::ClockBeforeEpoch) => {
                    &&& final(self).previous_error() == old(self).previous_error()
                    &&& final(self).integral() == old(self).integral()
                },
                Err(error) => {
                    &&& step_verdict(
                        old(self).gains(),
                        old(self).previous_error(),
                        old(self).integral(),
                        setpoint,
                        measurement,
                        dt_ms,
                    ) == Err::<int, ControlError>(error)
                    &&& final(self).previous_error() == old(self).previous_error()
                    &&& final(self).integral() == old(self).integral()
                },
            },
    {
        match wall_clock_ms() {
            Some(now_ms) => self.compute_at(setpoint, measurement, dt_ms, now_ms),
            None => Err(ControlError::ClockBeforeEpoch),
        }
    }
}

/// True when a value lies within `VALUE_LIMIT` of zero.
fn within(value: i64) -> (ok: bool)
    ensures
        ok == in_range(value),
{
    -VALUE_LIMIT <= value && value <= VALUE_LIMIT
}

} // verus!
