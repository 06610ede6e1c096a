//! The simulated sensors. A generator turns the random draws it is handed
//! into the next reading of its sensor; drawing them is left to the caller.

use crate::clock::wall_clock_ms;
use crate::config::SensorConfig;
use crate::data_types::{PerformanceMetrics, SensorData, SensorType};
use crate::numeric::{div_floor, VALUE_LIMIT};
use vstd::prelude::*;
use vstd::string::StringExecFns;

verus! {

/// Share of readings turned into spikes, in thousandths.
pub const SPIKE_RATE: i64 = 10;

/// The random draws behind one reading, all in thousandths.
#[derive(Debug, Clone, Copy, PartialEq, Eq, Structural)]
pub struct Draws {
    /// Noise to add, drawn around zero with the sensor's noise level as spread.
    pub noise: i64,
    /// Direction of the drift: uniform from 0 to 1.
    pub drift: i64,
    /// Decides whether the reading is a spike: uniform from 0 to 1.
    pub anomaly: i64,
    /// Factor of the spike, if it is one: uniform from 3 to 5.
    pub spike: i64,
}

/// One simulated sensor.
#[derive(Debug)]
pub struct SensorGenerator {
    sensor_id: String,
    sensor_type: SensorType,
    sample_rate_ms: u64,
    base_value: i64,
    noise_level: i64,
    drift_factor: i64,
    last_value: i64,
}

/// A value held to the range that the pipeline carries.
pub open spec fn clamped(value: int) -> int {
    if value < -VALUE_LIMIT {
        -VALUE_LIMIT as int
    } else if value > VALUE_LIMIT {
        VALUE_LIMIT as int
    } else {
        value
    }
}

/// The drifting baseline after one more reading: it moves by the drift
/// factor times the distance of the draw from one half.
pub open spec fn drifted(last_value: int, drift_factor: int, draw: int) -> int {
    clamped(last_value + (draw - 500) * drift_factor / 1000)
}

/// True when the draw makes the reading a spike.
pub open spec fn is_spike(draws: Draws) -> bool {
    draws.anomaly < SPIKE_RATE
}

/// The value of the reading: baseline plus noise, times the spike factor if
/// the reading is a spike.
pub open spec fn reading_value(baseline: int, draws: Draws) -> int {
    let factor = if is_spike(draws) {
        draws.spike as int
    } else {
        1000
    };
    clamped((baseline + draws.noise) * factor / 1000)
}

/// Holds a value to the range that the pipeline carries.
fn clamp(value: i128) -> (held: i64)
    ensures
        held == clamped(value as int),
{
    if value < -(VALUE_LIMIT as i128) {
        -VALUE_LIMIT
    } else if value > VALUE_LIMIT as i128 {
        VALUE_LIMIT
    } else {
        value as i64
    }
}

impl SensorGenerator {
    /// The sensor's name.
    pub closed spec fn id(&self) -> Seq<char> {
        self.sensor_id@
    }

    /// What the sensor measures.
    pub closed spec fn kind(&self) -> SensorType {
        self.sensor_type
    }

    /// Time between two readings, in milliseconds.
    pub closed spec fn rate_ms(&self) -> u64 {
        self.sample_rate_ms
    }

    /// The value the sensor started from, its noise level and its drift factor.
    pub closed spec fn profile(&self) -> (i64, i64, i64) {
        (self.base_value, self.noise_level, self.drift_factor)
    }

    /// The drifting baseline: where the sensor stands without noise.
    pub closed spec fn baseline(&self) -> i64 {
        self.last_value
    }

    /// A sensor that stands at its base value.
    pub fn new(
        sensor_id: &str,
        sensor_type: SensorType,
        sample_rate_ms: u64,
        base_value: i64,
        noise_level: i64,
        drift_factor: i64,
    ) -> (generator: Self)
        ensures
            generator.id() == sensor_id@,
            generator.kind() == sensor_type,
            generator.rate_ms() == sample_rate_ms,
            generator.profile() == (base_value, noise_level, drift_factor),
            generator.baseline() == base_value,
    {
        SensorGenerator {
            sensor_id: String::from_str(sensor_id),
            sensor_type,
            sample_rate_ms,
            base_value,
            noise_level,
            drift_factor,
            last_value: base_value,
        }
    }

    /// Time between two readings, in milliseconds.
    pub fn sample_rate_ms(&self) -> (rate: u64)
        ensures
            rate == self.rate_ms(),
    {
        self.sample_rate_ms
    }

    /// The spread of the noise, in thousandths.
    pub fn noise_level(&self) -> (level: i64)
        ensures
            level == self.profile().1,
    {
        self.noise_level
    }

    /// The sensor's name.
    pub fn sensor_id(&self) -> (id: &String)
        ensures
            id@ == self.id(),
    {
        &self.sensor_id
    }

    /// The next reading, from the draws behind it, stamped `now_ms`. The
    /// baseline drifts first; the reading is the new baseline plus noise,
    /// spiked if the draw says so, and comes with full confidence.
    pub fn reading_at(&mut self, draws: Draws, now_ms: u128) -> (reading: SensorData)
        ensures
            final(self).id() == old(self).id(),
            final(self).kind() == old(self).kind(),
            final(self).rate_ms() == old(self).rate_ms(),
            final(self).profile() == old(self).profile(),
            final(self).baseline() == drifted(
                old(self).baseline() as int,
                old(self).profile().2 as int,
                draws.drift as int,
            ),
            reading.timestamp == now_ms,
            reading.sensor_id@ == old(self).id(),
            reading.reading_type == old(self).kind(),
            reading.value == reading_value(final(self).baseline() as int, draws),
            reading.is_anomaly == is_spike(draws),
            reading.confidence == 1000,
    {
        let lean: i128 = draws.drift as i128 - 500;
        assert(-0x8000_0000_0000_0000_0000_0000_0000_0000 <= lean * (self.drift_factor as i128)
            <= 0x7fff_ffff_ffff_ffff_ffff_ffff_ffff_ffff) by (nonlinear_arith)
            requires
                -0x8000_0000_0000_0200 <= lean <= 0x8000_0000_0000_0000,
                -0x8000_0000_0000_0000 <= self.drift_factor as i128 <= 0x8000_0000_0000_0000,
        ;
        let drift: i128 = div_floor(lean * (self.drift_factor as i128), 1000);
        self.last_value = clamp(self.last_value as i128 + drift);
        let is_anomaly = draws.anomaly < SPIKE_RATE;
        let factor: i128 = if is_anomaly {
            draws.spike as i128
        } else {
            1000
        };
        let noisy: i128 = self.last_value as i128 + draws.noise as i128;
        assert(-0x8000_0000_0000_0000_0000_0000_0000_0000 <= noisy * factor
            <= 0x7fff_ffff_ffff_ffff_ffff_ffff_ffff_ffff) by (nonlinear_arith)
            requires
                -0x8000_0000_4000_0000 <= noisy <= 0x8000_0000_4000_0000,
                -0x8000_0000_0000_0000 <= factor <= 0x8000_0000_0000_0000,
        ;
        let value = clamp(div_floor(noisy * factor, 1000));
        SensorData {
            timestamp: now_ms,
            sensor_id: self.sensor_id.clone(),
            reading_type: self.sensor_type,
            value,
            is_anomaly,
            confidence: 1000,
        }
    }

    /// The next reading, stamped with whatever the wall clock reads, and the
    /// timing sample of making it. Where the clock reads earlier than the Unix
    /// epoch no reading is made and the sensor stays as it was.
    pub fn generate_reading(&mut self, draws: Draws) -> (out: Option<
        (SensorData, PerformanceMetrics),
    >)
        ensures
            final(self).id() == old(self).id(),
            final(self).kind() == old(self).kind(),
            final(self).rate_ms() == old(self).rate_ms(),
            final(self).profile() == old(self).profile(),
            match out {
                Some((reading, sample)) => {
                    &&& final(self).baseline() == drifted(
                        old(self).baseline() as int,
                        old(self).profile().2 as int,
                        draws.drift as int,
                    )
                    &&& reading.sensor_id@ == old(self).id()
                    &&& reading.reading_type == old(self).kind()
                    &&& reading.value == reading_value(final(self).baseline() as int, draws)
                    &&& reading.is_anomaly == is_spike(draws)
                    &&& reading.confidence == 1000
                    &&& sample.operation@ == "sensor_reading_generation"@
                    &&& sample.success
                    &&& sample.duration_ms is Some
                },
                None => final(self).baseline() == old(self).baseline(),
            },
    {
        let mut metrics = PerformanceMetrics::new("sensor_reading_generation");
        match wall_clock_ms() {
            Some(now_ms) => {
                let reading = self.reading_at(draws, now_ms);
                metrics.complete(true);
                Some((reading, metrics))
            },
            None => None,
        }
    }
}

/// Twice a sample period, or the longest period if that does not fit.
pub open spec fn doubled(rate_ms: u64) -> u64 {
    if rate_ms * 2 > u64::MAX {
        u64::MAX
    } else {
        (rate_ms * 2) as u64
    }
}

/// The sensors of the simulated array: a force sensor at 10 N, a position
/// sensor at 100 mm, and a temperature sensor at 25 degrees that is read half
/// as often as the others.
pub fn sensor_array(config: &SensorConfig) -> (sensors: Vec<SensorGenerator>)
    ensures
        sensors.len() == 3,
        sensors[0].id() == "force_sensor_1"@,
        sensors[0].kind() == SensorType::Force,
        sensors[0].rate_ms() == config.sample_rate_ms,
        sensors[0].profile() == (10_000i64, 200i64, 10i64),
        sensors[0].baseline() == 10_000,
        sensors[1].id() == "position_sensor_1"@,
        sensors[1].kind() == SensorType::Position,
        sensors[1].rate_ms() == config.sample_rate_ms,
        sensors[1].profile() == (100_000i64, 500i64, 5i64),
        sensors[1].baseline() == 100_000,
        sensors[2].id() == "temp_sensor_1"@,
        sensors[2].kind() == SensorType::Temperature,
        sensors[2].rate_ms() == doubled(config.sample_rate_ms),
        sensors[2].profile() == (25_000i64, 100i64, 2i64),
        sensors[2].baseline() == 25_000,
{
    let slow: u64 = if config.sample_rate_ms > u64::MAX / 2 {
        u64::MAX
    } else {
        config.sample_rate_ms * 2
    };
    let mut sensors: Vec<SensorGenerator> = Vec::new();
    sensors.push(
        SensorGenerator::new(
            "force_sensor_1",
            SensorType::Force,
            config.sample_rate_ms,
            10_000,
            200,
            10,
        ),
    );
    sensors.push(
        SensorGenerator::new(
            "position_sensor_1",
            SensorType::Position,
            config.sample_rate_ms,
            100_000,
            500,
            5,
        ),
    );
    sensors.push(SensorGenerator::new("temp_sensor_1", SensorType::Temperature, slow, 25_000, 100, 2));
    sensors
}

} // verus!
