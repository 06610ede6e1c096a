use sensor_pipeline::config::Config;
use sensor_pipeline::data_types::SensorType;
use sensor_pipeline::generator::{sensor_array, Draws, SensorGenerator};

fn still() -> Draws {
    Draws { noise: 0, drift: 500, anomaly: 999, spike: 4000 }
}

#[test]
fn a_reading_without_noise_or_drift_is_the_base_value() {
    let mut sensor = SensorGenerator::new("f", SensorType::Force, 5, 10_000, 200, 10);
    let reading = sensor.reading_at(still(), 77);
    assert_eq!(reading.value, 10_000);
    assert_eq!(reading.timestamp, 77);
    assert_eq!(reading.sensor_id, "f");
    assert_eq!(reading.reading_type, SensorType::Force);
    assert!(!reading.is_anomaly);
    assert_eq!(reading.confidence, 1000);
}

#[test]
fn noise_is_added_and_drift_stays() {
    let mut sensor = SensorGenerator::new("p", SensorType::Position, 5, 100_000, 500, 2_000);
    // drift (1.0 - 0.5) * 2.0 = 1.0, noise 0.25
    let first = sensor.reading_at(Draws { noise: 250, drift: 1000, anomaly: 500, spike: 3000 }, 0);
    assert_eq!(first.value, 101_250);
    // drift (0.0 - 0.5) * 2.0 = -1.0 on top of the drifted baseline, noise -0.1
    let second = sensor.reading_at(Draws { noise: -100, drift: 0, anomaly: 500, spike: 3000 }, 0);
    assert_eq!(second.value, 99_900);
    // no drift: the baseline stays where it drifted to
    let third = sensor.reading_at(still(), 0);
    assert_eq!(third.value, 100_000);
}

#[test]
fn drift_rounds_down() {
    let mut sensor = SensorGenerator::new("p", SensorType::Position, 5, 0, 0, 5);
    // (0.499 - 0.5) * 0.005 = -0.000005: one step down
    assert_eq!(sensor.reading_at(Draws { noise: 0, drift: 499, anomaly: 500, spike: 0 }, 0).value, -1);
    // (0.7 - 0.5) * 0.005 = 0.001
    assert_eq!(sensor.reading_at(Draws { noise: 0, drift: 700, anomaly: 500, spike: 0 }, 0).value, 0);
}

#[test]
fn one_reading_in_a_hundred_is_a_spike() {
    let mut sensor = SensorGenerator::new("f", SensorType::Force, 5, 10_000, 200, 0);
    let spike = sensor.reading_at(Draws { noise: 100, drift: 500, anomaly: 9, spike: 4000 }, 0);
    assert!(spike.is_anomaly);
    assert_eq!(spike.value, 40_400);
    let plain = sensor.reading_at(Draws { noise: 100, drift: 500, anomaly: 10, spike: 4000 }, 0);
    assert!(!plain.is_anomaly);
    assert_eq!(plain.value, 10_100);
    let low = sensor.reading_at(Draws { noise: 0, drift: 500, anomaly: 0, spike: 3500 }, 0);
    assert!(low.is_anomaly);
    assert_eq!(low.value, 35_000);
}

#[test]
fn values_are_held_to_the_range_of_the_pipeline() {
    let mut sensor = SensorGenerator::new("f", SensorType::Force, 5, 900_000_000, 0, 0);
    let spike = sensor.reading_at(Draws { noise: 0, drift: 500, anomaly: 0, spike: 5000 }, 0);
    assert_eq!(spike.value, 1_000_000_000);
    let wild = sensor.reading_at(
        Draws { noise: i64::MIN, drift: i64::MAX, anomaly: i64::MIN, spike: i64::MAX },
        0,
    );
    assert_eq!(wild.value, -1_000_000_000);
    let mut runaway = SensorGenerator::new("f", SensorType::Force, 5, i64::MAX, 0, i64::MAX);
    let first = runaway.reading_at(Draws { noise: 0, drift: i64::MAX, anomaly: 500, spike: 0 }, 0);
    assert_eq!(first.value, 1_000_000_000);
    let back = runaway.reading_at(Draws { noise: -1, drift: 500, anomaly: 500, spike: 0 }, 0);
    assert_eq!(back.value, 999_999_999);
}

#[test]
fn a_generated_reading_comes_with_its_timing() {
    let mut sensor = SensorGenerator::new("t", SensorType::Temperature, 10, 25_000, 100, 2);
    let (reading, sample) = sensor.generate_reading(still()).unwrap();
    assert_eq!(reading.value, 25_000);
    assert_eq!(reading.sensor_id, "t");
    assert_eq!(sample.operation, "sensor_reading_generation");
    assert!(sample.success);
    assert!(sample.duration_ms.is_some());
    assert!(reading.timestamp > 1_577_836_800_000);
    assert_eq!(sensor.sample_rate_ms(), 10);
    assert_eq!(sensor.noise_level(), 100);
    assert_eq!(sensor.sensor_id(), "t");
}

#[test]
fn the_array_has_three_sensors() {
    let config = Config::default().sensor;
    let mut sensors = sensor_array(&config);
    assert_eq!(sensors.len(), 3);
    let expected = [
        ("force_sensor_1", SensorType::Force, 5, 10_000, 200),
        ("position_sensor_1", SensorType::Position, 5, 100_000, 500),
        ("temp_sensor_1", SensorType::Temperature, 10, 25_000, 100),
    ];
    for (sensor, (id, kind, rate, base, noise)) in sensors.iter_mut().zip(expected) {
        assert_eq!(sensor.sensor_id(), id);
        assert_eq!(sensor.sample_rate_ms(), rate);
        assert_eq!(sensor.noise_level(), noise);
        let reading = sensor.reading_at(still(), 0);
        assert_eq!(reading.reading_type, kind);
        assert_eq!(reading.value, base);
    }
}

#[test]
fn the_slow_sensor_s_period_does_not_overflow() {
    let mut config = Config::default().sensor;
    config.sample_rate_ms = u64::MAX / 2;
    assert_eq!(sensor_array(&config)[2].sample_rate_ms(), u64::MAX - 1);
    config.sample_rate_ms = u64::MAX / 2 + 1;
    assert_eq!(sensor_array(&config)[2].sample_rate_ms(), u64::MAX);
    config.sample_rate_ms = u64::MAX;
    assert_eq!(sensor_array(&config)[2].sample_rate_ms(), u64::MAX);
    assert_eq!(sensor_array(&config)[0].sample_rate_ms(), u64::MAX);
}
