use crossbeam_channel::unbounded;
use sensor_pipeline::config::MetricsConfig;
use sensor_pipeline::data_types::PerformanceMetrics;
use sensor_pipeline::metrics::{
    deadline_budget, missed_deadline, report_due, summarize, Drained, MetricsCollector,
    MetricsError, OperationSamples, DURATION_LIMIT,
};
use std::time::Instant;

fn config(interval_ms: u64) -> MetricsConfig {
    MetricsConfig { log_to_file: false, log_file: "m.log".to_string(), report_interval_ms: interval_ms }
}

fn sample(operation: &str, duration: Option<u64>, success: bool) -> PerformanceMetrics {
    let now = Instant::now();
    PerformanceMetrics {
        operation: operation.to_string(),
        start_time: now,
        end_time: duration.map(|_| now),
        duration_ms: duration,
        success,
    }
}

#[test]
fn report_of_three_processing_runs() {
    let mut collector = MetricsCollector::new(&config(1000));
    collector.add_metrics(sample("data_processing", Some(1000), true)).unwrap();
    collector.add_metrics(sample("data_processing", Some(3000), true)).unwrap();
    collector.add_metrics(sample("data_processing", Some(2000), false)).unwrap();
    let report = collector.generate_report();
    assert_eq!(report.len(), 1);
    let stats = &report[0];
    assert_eq!(stats.operation, "data_processing");
    assert_eq!(stats.total_operations, 3);
    assert_eq!(stats.success_rate, 66_666);
    assert_eq!(stats.avg_duration, 2000);
    assert_eq!(stats.min_duration, 1000);
    assert_eq!(stats.max_duration, 3000);
    assert_eq!(stats.jitter, 816);
    assert_eq!(stats.missed_deadlines, 1);
}

#[test]
fn budgets_differ_by_operation() {
    assert_eq!(deadline_budget(&"data_processing".to_string()), Some(2000));
    assert_eq!(deadline_budget(&"data_transmission".to_string()), Some(1000));
    assert_eq!(deadline_budget(&"sensor_receive".to_string()), None);
    assert!(!missed_deadline(&"data_processing".to_string(), 2000));
    assert!(missed_deadline(&"data_processing".to_string(), 2001));
    assert!(!missed_deadline(&"data_transmission".to_string(), 1000));
    assert!(missed_deadline(&"data_transmission".to_string(), 1001));
    assert!(!missed_deadline(&"anything".to_string(), u64::MAX));
}

#[test]
fn report_keeps_operations_in_the_order_first_seen() {
    let mut collector = MetricsCollector::new(&config(1000));
    collector.add_metrics(sample("data_transmission", Some(1500), true)).unwrap();
    collector.add_metrics(sample("sensor_receive", Some(9000), true)).unwrap();
    collector.add_metrics(sample("data_transmission", Some(500), true)).unwrap();
    let report = collector.generate_report();
    assert_eq!(report.len(), 2);
    assert_eq!(report[0].operation, "data_transmission");
    assert_eq!(report[0].total_operations, 2);
    assert_eq!(report[0].success_rate, 100_000);
    assert_eq!(report[0].avg_duration, 1000);
    assert_eq!(report[0].jitter, 500);
    assert_eq!(report[0].missed_deadlines, 1);
    assert_eq!(report[1].operation, "sensor_receive");
    assert_eq!(report[1].total_operations, 1);
    assert_eq!(report[1].jitter, 0);
    assert_eq!(report[1].missed_deadlines, 0);
    assert_eq!(report[1].min_duration, 9000);
    assert_eq!(report[1].max_duration, 9000);
}

#[test]
fn samples_without_duration_count_but_are_not_timed() {
    let mut collector = MetricsCollector::new(&config(1000));
    collector.add_metrics(sample("op", None, false)).unwrap();
    collector.add_metrics(sample("op", None, true)).unwrap();
    let report = collector.generate_report();
    assert_eq!(report.len(), 1);
    assert_eq!(report[0].total_operations, 2);
    assert_eq!(report[0].success_rate, 50_000);
    assert_eq!(report[0].avg_duration, 0);
    assert_eq!(report[0].min_duration, 0);
    assert_eq!(report[0].max_duration, 0);
    assert_eq!(report[0].jitter, 0);
    assert_eq!(report[0].missed_deadlines, 0);
}

#[test]
fn an_empty_collector_reports_nothing() {
    let collector = MetricsCollector::new(&config(1000));
    assert!(collector.generate_report().is_empty());
}

#[test]
fn clearing_empties_the_window() {
    let mut collector = MetricsCollector::new(&config(1000));
    collector.add_metrics(sample("a", Some(1), true)).unwrap();
    collector.add_metrics(sample("b", Some(2), true)).unwrap();
    collector.clear_metrics();
    assert!(collector.generate_report().is_empty());
    collector.add_metrics(sample("b", Some(7), true)).unwrap();
    let report = collector.generate_report();
    assert_eq!(report.len(), 1);
    assert_eq!(report[0].operation, "b");
    assert_eq!(report[0].total_operations, 1);
    assert_eq!(report[0].avg_duration, 7);
}

#[test]
fn a_duration_beyond_the_limit_is_refused() {
    let mut collector = MetricsCollector::new(&config(1000));
    assert_eq!(
        collector.add_metrics(sample("a", Some(DURATION_LIMIT + 1), true)),
        Err(MetricsError::DurationOutOfRange)
    );
    assert!(collector.generate_report().is_empty());
    assert_eq!(collector.add_metrics(sample("a", Some(DURATION_LIMIT), true)), Ok(()));
    assert_eq!(collector.generate_report()[0].max_duration, DURATION_LIMIT);
}

#[test]
fn longest_durations_do_not_overflow() {
    let mut collector = MetricsCollector::new(&config(1000));
    for i in 0..1000 {
        let duration = if i % 2 == 0 { DURATION_LIMIT } else { 0 };
        collector.add_metrics(sample("a", Some(duration), true)).unwrap();
    }
    let report = collector.generate_report();
    assert_eq!(report[0].avg_duration, DURATION_LIMIT / 2);
    assert_eq!(report[0].jitter, DURATION_LIMIT / 2);
    assert_eq!(report[0].min_duration, 0);
}

#[test]
fn summarize_one_bucket() {
    let bucket = OperationSamples {
        operation: "data_transmission".to_string(),
        samples: vec![
            sample("data_transmission", Some(100), true),
            sample("data_transmission", None, false),
            sample("data_transmission", Some(1100), true),
            sample("data_transmission", Some(1200), false),
        ],
    };
    let stats = summarize(&bucket);
    assert_eq!(stats.operation, "data_transmission");
    assert_eq!(stats.total_operations, 4);
    assert_eq!(stats.success_rate, 50_000);
    assert_eq!(stats.avg_duration, 800);
    assert_eq!(stats.min_duration, 100);
    assert_eq!(stats.max_duration, 1200);
    assert_eq!(stats.jitter, 496);
    assert_eq!(stats.missed_deadlines, 2);
}

#[test]
fn a_report_is_due_once_the_interval_has_passed() {
    assert!(!report_due(999, 1000));
    assert!(report_due(1000, 1000));
    assert!(report_due(u128::MAX, u64::MAX));
    assert!(report_due(0, 0));
}

#[test]
fn should_report_follows_the_clock() {
    let mut collector = MetricsCollector::new(&config(0));
    assert!(collector.should_report());
    collector.reset_report_timer();
    assert!(collector.should_report());
    let patient = MetricsCollector::new(&config(3_600_000));
    assert!(!patient.should_report());
}

#[test]
fn take_report_closes_the_window_only_when_due() {
    let mut collector = MetricsCollector::new(&config(1000));
    collector.add_metrics(sample("a", Some(4), true)).unwrap();
    assert!(collector.take_report(false).is_none());
    let report = collector.take_report(true).unwrap();
    assert_eq!(report.len(), 1);
    assert_eq!(report[0].avg_duration, 4);
    assert!(collector.generate_report().is_empty());
    assert!(collector.take_report(true).unwrap().is_empty());
}

#[test]
fn log_file_only_when_logging_to_a_file() {
    let quiet = MetricsCollector::new(&config(1));
    assert!(quiet.log_file().is_none());
    let loud = MetricsCollector::new(&MetricsConfig {
        log_to_file: true,
        log_file: "out.log".to_string(),
        report_interval_ms: 1,
    });
    assert_eq!(loud.log_file().map(|s| s.as_str()), Some("out.log"));
}

#[test]
fn drain_takes_what_waits_in_order() {
    let (tx, rx) = unbounded::<PerformanceMetrics>();
    tx.send(sample("a", Some(10), true)).unwrap();
    tx.send(sample("a", Some(DURATION_LIMIT + 1), true)).unwrap();
    tx.send(sample("b", Some(30), false)).unwrap();
    let mut collector = MetricsCollector::new(&config(1000));
    let drained = collector.drain(&rx);
    assert_eq!(drained, Drained { recorded: 2, refused: 1, disconnected: false });
    let report = collector.generate_report();
    assert_eq!(report.len(), 2);
    assert_eq!(report[0].operation, "a");
    assert_eq!(report[0].total_operations, 1);
    assert_eq!(report[1].operation, "b");
    assert_eq!(collector.drain(&rx), Drained { recorded: 0, refused: 0, disconnected: false });
}

#[test]
fn drain_notices_a_disconnected_queue() {
    let (tx, rx) = unbounded::<PerformanceMetrics>();
    tx.send(sample("a", Some(10), true)).unwrap();
    drop(tx);
    let mut collector = MetricsCollector::new(&config(1000));
    assert_eq!(collector.drain(&rx), Drained { recorded: 1, refused: 0, disconnected: true });
    assert_eq!(collector.generate_report()[0].total_operations, 1);
}

#[test]
fn collect_reports_when_due_and_stops_on_disconnection() {
    let (tx, rx) = unbounded::<PerformanceMetrics>();
    tx.send(sample("a", Some(10), true)).unwrap();
    let mut eager = MetricsCollector::new(&config(0));
    let (drained, report) = eager.collect(&rx);
    assert_eq!(drained.recorded, 1);
    assert_eq!(report.unwrap()[0].total_operations, 1);
    assert!(eager.generate_report().is_empty());

    tx.send(sample("a", Some(10), true)).unwrap();
    let mut patient = MetricsCollector::new(&config(3_600_000));
    let (drained, report) = patient.collect(&rx);
    assert_eq!(drained.recorded, 1);
    assert!(report.is_none());
    assert_eq!(patient.generate_report()[0].total_operations, 1);

    drop(tx);
    let (drained, report) = eager.collect(&rx);
    assert!(drained.disconnected);
    assert!(report.is_none());
}

#[test]
fn a_period_can_be_restarted_at_a_given_instant() {
    let mut collector = MetricsCollector::new(&config(3_600_000));
    collector.add_metrics(sample("a", Some(4), true)).unwrap();
    assert!(!collector.should_report());
    let now = Instant::now();
    if let Some(long_ago) = now.checked_sub(std::time::Duration::from_secs(7_200)) {
        collector.restart_at(long_ago);
        assert!(collector.should_report());
    }
    collector.restart_at(now);
    assert!(!collector.should_report());
    assert_eq!(collector.generate_report()[0].total_operations, 1);
    collector.reset_report_timer();
    assert!(!collector.should_report());
    assert_eq!(collector.generate_report()[0].total_operations, 1);
}
