//! Settings of the pipeline and their defaults.

use vstd::prelude::*;
use vstd::string::StringExecFns;

verus! {

/// Settings of the simulated sensors.
#[derive(Debug, Clone)]
pub struct SensorConfig {
    /// Time between two readings of one sensor, in milliseconds.
    pub sample_rate_ms: u64,
    pub num_sensors: usize,
    pub enable_anomalies: bool,
    /// Share of readings made anomalous on purpose, in thousandths.
    pub anomaly_rate: i64,
}

/// Settings of the data processor.
#[derive(Debug, Clone)]
pub struct ProcessorConfig {
    pub window_size: usize,
    /// Base anomaly threshold, in thousandths of a standard deviation.
    pub anomaly_threshold: i64,
}

/// Settings of the transport towards the actuator side.
#[derive(Debug, Clone)]
pub struct TransmitterConfig {
    /// `"tcp"`, `"shared_memory"` or `"channel"`.
    pub connection_type: String,
    pub endpoint: String,
    pub shared_mem_name: String,
    pub buffer_size: usize,
    pub retry_attempts: usize,
}

/// Settings of the metrics collector.
#[derive(Debug, Clone)]
pub struct MetricsConfig {
    pub log_to_file: bool,
    pub log_file: String,
    /// Time between two reports, in milliseconds.
    pub report_interval_ms: u64,
}

/// All settings of the pipeline.
#[derive(Debug, Clone)]
pub struct Config {
    pub sensor: SensorConfig,
    pub processor: ProcessorConfig,
    pub transmitter: TransmitterConfig,
    pub metrics: MetricsConfig,
}

impl Config {
    /// The settings used when no file is given.
    pub fn default() -> (config: Self)
        ensures
            config.sensor.sample_rate_ms == 5,
            config.sensor.num_sensors == 3,
            config.sensor.enable_anomalies,
            config.sensor.anomaly_rate == 10,
            config.processor.window_size == 20,
            config.processor.anomaly_threshold == 3000,
            config.transmitter.connection_type@ == "channel"@,
            config.transmitter.endpoint@ == "127.0.0.1:8080"@,
            config.transmitter.shared_mem_name@ == "sensor_data"@,
            config.transmitter.buffer_size == 1024,
            config.transmitter.retry_attempts == 3,
            config.metrics.log_to_file,
            config.metrics.log_file@ == "metrics.log"@,
            config.metrics.report_interval_ms == 1000,
    {
        Config {
            sensor: SensorConfig {
                sample_rate_ms: 5,
                num_sensors: 3,
                enable_anomalies: true,
                anomaly_rate: 10,
            },
            processor: ProcessorConfig { window_size: 20, anomaly_threshold: 3000 },
            transmitter: TransmitterConfig {
                connection_type: String::from_str("channel"),
                endpoint: String::from_str("127.0.0.1:8080"),
                shared_mem_name: String::from_str("sensor_data"),
                buffer_size: 1024,
                retry_attempts: 3,
            },
            metrics: MetricsConfig {
                log_to_file: true,
                log_file: String::from_str("metrics.log"),
                report_interval_ms: 1000,
            },
        }
    }
}

} // verus!
