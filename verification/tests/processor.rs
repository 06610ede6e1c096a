use sensor_pipeline::data_types::{SensorData, SensorType};
use sensor_pipeline::processor::{
    DataProcessor, ThresholdError, TimingSummary, TimingWindow, DEFAULT_HORIZON_MS,
};

fn reading(id: &str, kind: SensorType, value: i64) -> SensorData {
    SensorData {
        timestamp: 42,
        sensor_id: id.to_string(),
        reading_type: kind,
        value,
        is_anomaly: false,
        confidence: 1000,
    }
}

fn next_random(state: &mut u64) -> u64 {
    *state = state.wrapping_mul(6364136223846793005).wrapping_add(1442695040888963407);
    *state >> 33
}

#[test]
fn nine_identical_readings_then_an_outlier() {
    let mut processor = DataProcessor::new(20);
    for _ in 0..9 {
        let (out, sample) = processor.process(reading("pos", SensorType::Position, 10_000));
        assert!(!out.is_anomaly);
        assert_eq!(out.confidence, 1000);
        assert_eq!(out.value, 10_000);
        assert!(sample.success);
    }
    let (tenth, _) = processor.process(reading("pos", SensorType::Position, 50_000));
    assert_eq!(tenth.value, 14_000);
    assert!(!tenth.is_anomaly);
    assert_eq!(tenth.confidence, 526);
    assert_eq!(tenth.timestamp, 42);
    assert_eq!(tenth.sensor_id, "pos");
    assert_eq!(tenth.reading_type, SensorType::Position);
}

#[test]
fn the_tenth_of_ten_identical_readings_has_the_floor() {
    let mut processor = DataProcessor::new(10);
    let mut raw = reading("S1", SensorType::Position, 10_000);
    raw.confidence = 900;
    for _ in 0..9 {
        let (out, _) = processor.process(raw.clone());
        assert_eq!(out.confidence, 900);
    }
    let (tenth, _) = processor.process(raw);
    assert!(!tenth.is_anomaly);
    assert_eq!(tenth.confidence, 100);
    assert_eq!(tenth.value, 10_000);
}

#[test]
fn the_same_outlier_passes_the_lower_force_threshold() {
    let mut processor = DataProcessor::new(20);
    for _ in 0..9 {
        processor.process(reading("force", SensorType::Force, 10_000));
    }
    let (tenth, _) = processor.process(reading("force", SensorType::Force, 50_000));
    assert_eq!(tenth.value, 14_000);
    assert!(tenth.is_anomaly);
    assert_eq!(tenth.confidence, 431);
}

#[test]
fn flags_pass_through_below_the_minimum() {
    let mut processor = DataProcessor::new(20);
    let mut raw = reading("S", SensorType::Velocity, 7_000);
    raw.is_anomaly = true;
    raw.confidence = 333;
    let (out, _) = processor.process(raw);
    assert!(out.is_anomaly);
    assert_eq!(out.confidence, 333);
    assert_eq!(out.value, 7_000);
}

#[test]
fn a_stream_without_spread_gives_no_anomaly_and_the_floor() {
    let mut processor = DataProcessor::new(20).with_min_samples(3);
    let mut last = reading("S", SensorType::Force, 0);
    for _ in 0..3 {
        let mut raw = reading("S", SensorType::Force, 5_000);
        raw.is_anomaly = true;
        last = processor.process(raw).0;
    }
    assert!(!last.is_anomaly);
    assert_eq!(last.confidence, 100);
    assert_eq!(last.value, 5_000);
}

#[test]
fn minimum_sample_count_can_be_set() {
    let mut processor = DataProcessor::new(20).with_min_samples(2);
    processor.process(reading("S", SensorType::Temperature, 1_000));
    let (second, _) = processor.process(reading("S", SensorType::Temperature, 3_000));
    assert_eq!(second.value, 2_000);
    assert!(!second.is_anomaly);
    assert_eq!(second.confidence, 899);
}

#[test]
fn confidence_stays_between_a_tenth_and_one_once_judged() {
    let mut processor = DataProcessor::new(20);
    let mut state = 5u64;
    for i in 0..400 {
        let mut value = 20_000 + (next_random(&mut state) % 2_001) as i64 - 1_000;
        if i % 37 == 0 {
            value *= 5;
        }
        let (out, _) = processor.process(reading("S", SensorType::Position, value));
        assert!(out.confidence >= 0 && out.confidence <= 1000);
        if i >= 9 {
            assert!(out.confidence >= 100);
        }
    }
}

#[test]
fn a_reading_out_of_range_comes_back_as_it_came() {
    let mut processor = DataProcessor::new(20);
    processor.process(reading("S", SensorType::Force, 1_000));
    let (out, sample) = processor.process(reading("S", SensorType::Force, 2_000_000_000));
    assert_eq!(out.value, 2_000_000_000);
    assert!(!out.is_anomaly);
    assert_eq!(out.confidence, 1000);
    assert!(!sample.success);
    assert_eq!(sample.operation, "data_processing");
    let (next, sample) = processor.process(reading("S", SensorType::Force, 3_000));
    assert_eq!(next.value, 2_000);
    assert!(sample.success);
    assert!(sample.duration_ms.is_some());
    assert!(sample.end_time.is_some());
}

#[test]
fn thousand_readings_with_one_percent_outliers() {
    let mut processor = DataProcessor::new(20);
    let mut state = 12345u64;
    let mut requests = 0;
    let mut flagged: Vec<usize> = Vec::new();
    for i in 0..1000 {
        let noise = (next_random(&mut state) % 401) as i64 - 200;
        let mut value = 10_000 + noise;
        if i % 100 == 57 {
            value *= 4;
        }
        let out = processor.handle_reading(reading("S1", SensorType::Force, value));
        let request = out.request.unwrap();
        assert_eq!(request.is_some(), out.reading.is_anomaly);
        if let Some(request) = request {
            requests += 1;
            flagged.push(i);
            assert_eq!(request.command_id, "cmd_S1");
            assert_eq!(request.actuator_id, "S1");
            assert_eq!(request.priority, 1);
            assert_eq!(request.control_command.value, out.reading.value);
            assert_eq!(
                request.deadline,
                request.control_command.timestamp + DEFAULT_HORIZON_MS as u128
            );
        }
    }
    assert!(requests >= 1 && requests <= 19);
    assert_eq!(requests, 10);
    assert_eq!(flagged, vec![57, 157, 257, 357, 457, 557, 657, 757, 857, 957]);
}

#[test]
fn request_only_for_an_anomaly() {
    let processor = DataProcessor::new(20).with_deadline_horizon(500);
    let mut data = reading("arm", SensorType::Position, 1_234);
    assert!(processor.actuator_command_at(&data, 1_000).is_none());
    assert_eq!(processor.generate_actuator_command(&data).map(|r| r.is_none()), Ok(true));
    data.is_anomaly = true;
    let request = processor.actuator_command_at(&data, 1_000).unwrap();
    assert_eq!(request.command_id, "cmd_arm");
    assert_eq!(request.actuator_id, "arm");
    assert_eq!(request.control_command.command_type, "adjust_position");
    assert_eq!(request.control_command.payload.as_deref(), Some("new_target_position"));
    assert_eq!(request.control_command.timestamp, 1_000);
    assert_eq!(request.control_command.value, 1_234);
    assert_eq!(request.priority, 1);
    assert_eq!(request.deadline, 1_500);
    let now = processor.generate_actuator_command(&data).unwrap().unwrap();
    assert_eq!(now.deadline, now.control_command.timestamp + 500);
}

#[test]
fn request_deadline_does_not_overflow() {
    let processor = DataProcessor::new(1).with_deadline_horizon(u64::MAX);
    let mut data = reading("arm", SensorType::Position, 0);
    data.is_anomaly = true;
    let request = processor.actuator_command_at(&data, u64::MAX).unwrap();
    assert_eq!(request.deadline, 2 * (u64::MAX as u128));
}

#[test]
fn initial_thresholds() {
    let processor = DataProcessor::new(20);
    assert_eq!(processor.threshold(SensorType::Force), 2500);
    assert_eq!(processor.threshold(SensorType::Position), 3000);
    assert_eq!(processor.threshold(SensorType::Velocity), 2800);
    assert_eq!(processor.threshold(SensorType::Temperature), 3500);
}

#[test]
fn thresholds_can_be_adjusted_one_by_one() {
    let mut processor = DataProcessor::new(20);
    assert_eq!(processor.adjust_threshold(SensorType::Velocity, 1500), Ok(()));
    assert_eq!(processor.threshold(SensorType::Velocity), 1500);
    assert_eq!(processor.threshold(SensorType::Force), 2500);
    assert_eq!(processor.threshold(SensorType::Position), 3000);
    assert_eq!(processor.threshold(SensorType::Temperature), 3500);
}

#[test]
fn a_threshold_that_is_not_positive_is_refused() {
    let mut processor = DataProcessor::new(20);
    assert_eq!(
        processor.adjust_threshold(SensorType::Force, 0),
        Err(ThresholdError::NotPositive)
    );
    assert_eq!(
        processor.adjust_threshold(SensorType::Force, -3000),
        Err(ThresholdError::NotPositive)
    );
    assert_eq!(processor.threshold(SensorType::Force), 2500);
}

#[test]
fn adjusted_threshold_decides_the_flag() {
    let mut processor = DataProcessor::new(20);
    processor.adjust_threshold(SensorType::Position, 2846).unwrap();
    for _ in 0..9 {
        processor.process(reading("P", SensorType::Position, 10_000));
    }
    let (at, _) = processor.process(reading("P", SensorType::Position, 50_000));
    assert!(!at.is_anomaly);
    let mut lower = DataProcessor::new(20);
    lower.adjust_threshold(SensorType::Position, 2845).unwrap();
    for _ in 0..9 {
        lower.process(reading("P", SensorType::Position, 10_000));
    }
    let (above, _) = lower.process(reading("P", SensorType::Position, 50_000));
    assert!(above.is_anomaly);
}

#[test]
fn timing_window_notes_jitter() {
    let mut window = TimingWindow::new();
    assert_eq!(window.record(500).jitter, None);
    assert_eq!(window.record(800).jitter, Some(300));
    assert_eq!(window.record(100).jitter, Some(700));
    assert_eq!(window.record(100).jitter, Some(0));
}

#[test]
fn timing_window_sums_up_every_hundred() {
    let mut window = TimingWindow::new();
    for i in 1..100u64 {
        assert_eq!(window.record(i * 10).summary, None);
    }
    let note = window.record(1_000);
    assert_eq!(
        note.summary,
        Some(TimingSummary { min: 10, max: 1_000, avg: 505, samples: 100 })
    );
    assert_eq!(window.record(7).summary, None);
}

#[test]
fn timing_window_forgets_the_oldest() {
    let mut window = TimingWindow::new();
    window.record(1);
    for _ in 0..999 {
        window.record(50);
    }
    let still = window.record(50);
    assert_eq!(
        still.summary,
        Some(TimingSummary { min: 50, max: 50, avg: 50, samples: 1000 })
    );
}
