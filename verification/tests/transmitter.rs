use sensor_pipeline::config::Config;
use sensor_pipeline::data_types::ActuatorStatus;
use sensor_pipeline::transmitter::{
    frame_of, ConnectStep, ConnectionType, DataTransmitter, FeedbackStep, FrameReader, RetryPolicy,
    RetryStep, SendStep, TransmitError,
};

#[test]
fn a_new_transmitter_is_not_connected() {
    let transmitter = DataTransmitter::new(ConnectionType::TcpSocket);
    assert_eq!(transmitter.connection_type, ConnectionType::TcpSocket);
    assert!(transmitter.endpoint.is_none());
    assert!(transmitter.shared_mem_name.is_none());
    assert!(!transmitter.connected);
}

#[test]
fn builders_set_one_field_each() {
    let transmitter = DataTransmitter::new(ConnectionType::TcpSocket)
        .with_tcp_endpoint("127.0.0.1:9000")
        .with_shared_memory("shm");
    assert_eq!(transmitter.endpoint.as_deref(), Some("127.0.0.1:9000"));
    assert_eq!(transmitter.shared_mem_name.as_deref(), Some("shm"));
    assert_eq!(transmitter.connection_type, ConnectionType::TcpSocket);
    assert!(!transmitter.connected);
}

#[test]
fn tcp_needs_an_endpoint_and_a_dial() {
    let mut bare = DataTransmitter::new(ConnectionType::TcpSocket);
    assert_eq!(bare.connect().unwrap_err(), TransmitError::EndpointMissing);
    assert!(!bare.connected);
    let mut tcp = DataTransmitter::new(ConnectionType::TcpSocket).with_tcp_endpoint("host:1");
    match tcp.connect().unwrap() {
        ConnectStep::Dial { endpoint } => assert_eq!(endpoint, "host:1"),
        ConnectStep::Ready => panic!("a TCP transmitter must dial"),
    }
    assert!(!tcp.connected);
    tcp.connection_opened();
    assert!(tcp.connected);
    assert_eq!(tcp.endpoint.as_deref(), Some("host:1"));
}

#[test]
fn shared_memory_needs_a_name() {
    let mut bare = DataTransmitter::new(ConnectionType::SharedMemory);
    assert_eq!(bare.connect().unwrap_err(), TransmitError::SharedMemoryMissing);
    assert!(!bare.connected);
    let mut named = DataTransmitter::new(ConnectionType::SharedMemory).with_shared_memory("m");
    assert!(matches!(named.connect(), Ok(ConnectStep::Ready)));
    assert!(named.connected);
}

#[test]
fn the_channel_connects_at_once() {
    let mut channel = DataTransmitter::new(ConnectionType::CrossbeamChannel);
    assert!(matches!(channel.connect(), Ok(ConnectStep::Ready)));
    assert!(channel.connected);
}

#[test]
fn nothing_is_sent_unconnected() {
    for medium in [
        ConnectionType::TcpSocket,
        ConnectionType::SharedMemory,
        ConnectionType::CrossbeamChannel,
    ] {
        let transmitter = DataTransmitter::new(medium);
        assert_eq!(transmitter.send_data(b"x").unwrap_err(), TransmitError::NotConnected);
        assert_eq!(transmitter.receive_feedback().unwrap_err(), TransmitError::NotConnected);
        assert_eq!(transmitter.receive_feedback_at(1).unwrap_err(), TransmitError::NotConnected);
    }
}

#[test]
fn sending_depends_on_the_medium() {
    let mut tcp = DataTransmitter::new(ConnectionType::TcpSocket);
    tcp.connection_opened();
    match tcp.send_data(b"{\"a\":1}").unwrap() {
        SendStep::Write { frame } => assert_eq!(frame, b"{\"a\":1}\n".to_vec()),
        _ => panic!("a TCP transmitter must write a frame"),
    }
    let mut shared = DataTransmitter::new(ConnectionType::SharedMemory).with_shared_memory("m");
    shared.connect().unwrap();
    assert!(matches!(shared.send_data(b"x"), Ok(SendStep::Pause { micros: 100 })));
    let mut channel = DataTransmitter::new(ConnectionType::CrossbeamChannel);
    channel.connect().unwrap();
    assert!(matches!(channel.send_data(b"x"), Ok(SendStep::Nothing)));
}

#[test]
fn feedback_depends_on_the_medium() {
    let mut tcp = DataTransmitter::new(ConnectionType::TcpSocket);
    tcp.connection_opened();
    assert!(matches!(tcp.receive_feedback(), Ok(FeedbackStep::ReadFrame)));
    let mut shared = DataTransmitter::new(ConnectionType::SharedMemory).with_shared_memory("m");
    shared.connect().unwrap();
    match shared.receive_feedback_at(77).unwrap() {
        FeedbackStep::Simulated { feedback } => {
            assert_eq!(feedback.timestamp, 77);
            assert_eq!(feedback.actuator_id, "sim_actuator");
            assert_eq!(feedback.status, ActuatorStatus::Normal);
            assert_eq!(feedback.message.as_deref(), Some("Simulation feedback"));
        }
        FeedbackStep::ReadFrame => panic!("shared memory makes its feedback up"),
    }
    assert!(matches!(shared.receive_feedback(), Ok(FeedbackStep::Simulated { .. })));
    let mut channel = DataTransmitter::new(ConnectionType::CrossbeamChannel);
    channel.connect().unwrap();
    assert_eq!(channel.receive_feedback().unwrap_err(), TransmitError::FeedbackUnsupported);
}

#[test]
fn errors_in_words() {
    assert_eq!(TransmitError::EndpointMissing.message(), "TCP endpoint not configured");
    assert_eq!(TransmitError::SharedMemoryMissing.message(), "Shared memory name not configured");
    assert_eq!(TransmitError::NotConnected.message(), "Not connected to actuator system");
    assert_eq!(
        TransmitError::FeedbackUnsupported.message(),
        "Feedback not implemented for CrossbeamChannel"
    );
    assert_eq!(TransmitError::ClockBeforeEpoch.message(), "Time went backwards");
}

#[test]
fn the_configuration_names_the_medium() {
    let mut config = Config::default().transmitter;
    let channel = DataTransmitter::from_config(&config).unwrap();
    assert_eq!(channel.connection_type, ConnectionType::CrossbeamChannel);
    assert!(channel.endpoint.is_none() && channel.shared_mem_name.is_none());
    config.connection_type = "tcp".to_string();
    let tcp = DataTransmitter::from_config(&config).unwrap();
    assert_eq!(tcp.connection_type, ConnectionType::TcpSocket);
    assert_eq!(tcp.endpoint.as_deref(), Some("127.0.0.1:8080"));
    assert!(tcp.shared_mem_name.is_none());
    config.connection_type = "shared_memory".to_string();
    let shared = DataTransmitter::from_config(&config).unwrap();
    assert_eq!(shared.connection_type, ConnectionType::SharedMemory);
    assert_eq!(shared.shared_mem_name.as_deref(), Some("sensor_data"));
    assert!(shared.endpoint.is_none());
    config.connection_type = "carrier_pigeon".to_string();
    assert!(DataTransmitter::from_config(&config).is_none());
    config.connection_type = "TCP".to_string();
    assert!(DataTransmitter::from_config(&config).is_none());
}

#[test]
fn a_frame_ends_with_a_newline() {
    assert_eq!(frame_of(b"abc"), b"abc\n".to_vec());
    assert_eq!(frame_of(b""), b"\n".to_vec());
    assert_eq!(frame_of(b"a\nb"), b"a\nb\n".to_vec());
}

#[test]
fn a_frame_is_gathered_across_chunks() {
    let mut reader = FrameReader::new();
    assert!(!reader.complete());
    assert!(!reader.absorb(b"{\"status\""));
    assert!(!reader.absorb(b""));
    assert!(reader.absorb(b":1}\nrest"));
    assert!(reader.complete());
    assert!(reader.absorb(b"more\n"));
    assert_eq!(reader.into_frame(), b"{\"status\":1}".to_vec());
}

#[test]
fn a_frame_may_end_at_once_or_never() {
    let mut empty = FrameReader::new();
    assert!(empty.absorb(b"\nabc"));
    assert_eq!(empty.into_frame(), Vec::<u8>::new());
    let mut open = FrameReader::new();
    assert!(!open.absorb(b"abc"));
    assert!(!open.absorb(b"def"));
    assert!(!open.complete());
    assert_eq!(open.into_frame(), b"abcdef".to_vec());
    let mut last = FrameReader::new();
    assert!(last.absorb(b"abc\n"));
    assert_eq!(last.into_frame(), b"abc".to_vec());
}

#[test]
fn a_failed_send_is_retried_a_bounded_number_of_times() {
    let policy = RetryPolicy::from_config(&Config::default().transmitter);
    assert_eq!(policy, RetryPolicy { max_attempts: 3, backoff_ms: 100 });
    assert_eq!(policy.after_failure(0), RetryStep::RetryAfter { backoff_ms: 100 });
    assert_eq!(policy.after_failure(1), RetryStep::RetryAfter { backoff_ms: 100 });
    assert_eq!(policy.after_failure(2), RetryStep::RetryAfter { backoff_ms: 100 });
    assert_eq!(policy.after_failure(3), RetryStep::GiveUp);
    assert_eq!(policy.after_failure(usize::MAX), RetryStep::GiveUp);
    let never = RetryPolicy { max_attempts: 0, backoff_ms: 5 };
    assert_eq!(never.after_failure(0), RetryStep::GiveUp);
}
