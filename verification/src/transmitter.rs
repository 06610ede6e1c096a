//! The transmitter's side of the transport: which medium is in use, what
//! each operation asks of it, how frames are cut from a byte stream, and when
//! a failed send is tried again. Moving the bytes is left to the caller.

use crate::clock::wall_clock_ms;
use crate::config::TransmitterConfig;
use crate::data_types::{ActuatorFeedback, ActuatorStatus};
use vstd::prelude::*;
use vstd::string::StringExecFns;

verus! {

/// The byte that ends a frame.
pub const FRAME_END: u8 = 10;

/// Pause that stands for a write to shared memory, in microseconds.
pub const SHARED_MEMORY_PAUSE_US: u64 = 100;

/// Pause between two attempts to send, in milliseconds.
pub const RETRY_BACKOFF_MS: u64 = 100;

/// The media a transmitter can use.
#[derive(Debug, Clone, Copy, PartialEq, Eq, Structural)]
pub enum ConnectionType {
    SharedMemory,
    TcpSocket,
    CrossbeamChannel,
}

/// Why the transmitter refused an operation.
#[derive(Debug, Clone, Copy, PartialEq, Eq, Structural)]
pub enum TransmitError {
    /// A TCP transmitter was given no endpoint.
    EndpointMissing,
    /// A shared-memory transmitter was given no name.
    SharedMemoryMissing,
    /// The transmitter is not connected.
    NotConnected,
    /// The in-process channel carries no feedback.
    FeedbackUnsupported,
    /// The wall clock reads earlier than the Unix epoch, so the feedback
    /// cannot be stamped.
    ClockBeforeEpoch,
}

/// What is left to do to connect.
#[derive(Debug)]
pub enum ConnectStep {
    /// Open a TCP stream to this endpoint, then report it with `connection_opened`.
    Dial { endpoint: String },
    /// Nothing: the transmitter is connected.
    Ready,
}

/// What is left to do to send one serialised reading.
#[derive(Debug)]
pub enum SendStep {
    /// Write these bytes to the stream: the reading and the end of the frame.
    Write { frame: Vec<u8> },
    /// Pause for this long, in microseconds.
    Pause { micros: u64 },
    /// Nothing: the reading travels through the channel.
    Nothing,
}

/// Where the next feedback comes from.
#[derive(Debug)]
pub enum FeedbackStep {
    /// Read one frame from the stream and decode it.
    ReadFrame,
    /// This feedback, made up by the simulated medium.
    Simulated { feedback: ActuatorFeedback },
}

/// What follows a failed attempt to send.
#[derive(Debug, Clone, Copy, PartialEq, Eq, Structural)]
pub enum RetryStep {
    /// Pause this long, in milliseconds, and try again.
    RetryAfter { backoff_ms: u64 },
    /// Give up: the send has failed.
    GiveUp,
}

/// A transmitter towards the actuator side.
#[derive(Debug)]
pub struct DataTransmitter {
    pub connection_type: ConnectionType,
    pub endpoint: Option<String>,
    pub shared_mem_name: Option<String>,
    pub connected: bool,
}

/// How often a failed send is tried again, and how long to wait in between.
#[derive(Debug, Clone, Copy, PartialEq, Eq, Structural)]
pub struct RetryPolicy {
    pub max_attempts: usize,
    pub backoff_ms: u64,
}

/// Cuts one frame from a stream that arrives in chunks.
#[derive(Debug)]
pub struct FrameReader {
    buffer: Vec<u8>,
    complete: bool,
}

/// Position of the first end-of-frame byte in `chunk`, or the length of
/// `chunk` if it has none.
pub open spec fn frame_end_in(chunk: Seq<u8>) -> int
    decreases chunk.len(),
{
    if chunk.len() == 0 {
        0
    } else if chunk[0] == FRAME_END {
        0
    } else {
        1 + frame_end_in(chunk.drop_first())
    }
}

/// The position `frame_end_in` gives lies within the chunk, no byte before it
/// ends a frame, and the byte at it, if there is one, does.
pub proof fn lemma_frame_end_in(chunk: Seq<u8>)
    ensures
        0 <= frame_end_in(chunk) <= chunk.len(),
        forall|k: int| 0 <= k < frame_end_in(chunk) ==> chunk[k] != FRAME_END,
        frame_end_in(chunk) < chunk.len() ==> chunk[frame_end_in(chunk)] == FRAME_END,
    decreases chunk.len(),
{
    if chunk.len() > 0 && chunk[0] != FRAME_END {
        let rest = chunk.drop_first();
        lemma_frame_end_in(rest);
        assert forall|k: int| 0 <= k < frame_end_in(chunk) implies chunk[k] != FRAME_END by {
            if k > 0 {
                assert(chunk[k] == rest[k - 1]);
            }
        }
        if frame_end_in(chunk) < chunk.len() {
            assert(chunk[frame_end_in(chunk)] == rest[frame_end_in(rest)]);
        }
    }
}

/// A position before which no byte ends a frame, and at which the chunk ends
/// or a byte does, is the position `frame_end_in` gives.
proof fn lemma_frame_end_is(chunk: Seq<u8>, at: int)
    requires
        0 <= at <= chunk.len(),
        forall|k: int| 0 <= k < at ==> chunk[k] != FRAME_END,
        at < chunk.len() ==> chunk[at] == FRAME_END,
    ensures
        frame_end_in(chunk) == at,
    decreases chunk.len(),
{
    if chunk.len() > 0 && at > 0 {
        let rest = chunk.drop_first();
        assert forall|k: int| 0 <= k < at - 1 implies rest[k] != FRAME_END by {
            assert(rest[k] == chunk[k + 1]);
        }
        if at < chunk.len() {
            assert(rest[at - 1] == chunk[at]);
        }
        lemma_frame_end_is(rest, at - 1);
    }
}

impl FrameReader {
    /// The bytes of the frame gathered so far.
    pub closed spec fn gathered(&self) -> Seq<u8> {
        self.buffer@
    }

    /// True once the end of the frame was seen.
    pub closed spec fn is_complete(&self) -> bool {
        self.complete
    }

    /// A reader that has gathered nothing.
    pub fn new() -> (reader: Self)
        ensures
            reader.gathered() == Seq::<u8>::empty(),
            !reader.is_complete(),
    {
        FrameReader { buffer: Vec::new(), complete: false }
    }

    /// True once the end of the frame was seen.
    pub fn complete(&self) -> (complete: bool)
        ensures
            complete == self.is_complete(),
    {
        self.complete
    }

    /// Takes the next chunk of the stream. The bytes up to the first end of
    /// frame join the frame; that byte and whatever follows it in the chunk
    /// are dropped. A complete reader takes nothing more.
    pub fn absorb(&mut self, chunk: &[u8]) -> (complete: bool)
        ensures
            complete == final(self).is_complete(),
            old(self).is_complete() ==> final(self).is_complete() && final(self).gathered() == old(self).gathered(),
            !old(self).is_complete() ==> {
                &&& final(self).gathered() == old(self).gathered() + chunk@.take(
                    frame_end_in(chunk@),
                )
                &&& final(self).is_complete() == (frame_end_in(chunk@) < chunk@.len())
            },
    {
        if self.complete {
            return true;
        }
        let mut i: usize = 0;
        while i < chunk.len()
            invariant
                i <= chunk.len(),
                !self.complete,
                !old(self).complete,
                self.buffer@ == old(self).buffer@ + chunk@.take(i as int),
                forall|k: int| 0 <= k < i ==> chunk@[k] != FRAME_END,
            decreases chunk.len() - i,
        {
            if chunk[i] == FRAME_END {
                self.complete = true;
                proof {
                    lemma_frame_end_is(chunk@, i as int);
                }
                return true;
            }
            self.buffer.push(chunk[i]);
            proof {
                assert(chunk@.take(i + 1) =~= chunk@.take(i as int).push(chunk@[i as int]));
                assert(self.buffer@ =~= old(self).buffer@ + chunk@.take(i + 1));
            }
            i = i + 1;
        }
        proof {
            lemma_frame_end_is(chunk@, chunk@.len() as int);
        }
        false
    }

    /// The frame: what was gathered, whether or not its end was seen.
    pub fn into_frame(self) -> (frame: Vec<u8>)
        ensures
            frame@ == self.gathered(),
    {
        self.buffer
    }
}

/// A serialised reading followed by the end of the frame.
pub fn frame_of(serialized: &[u8]) -> (frame: Vec<u8>)
    ensures
        frame@ == serialized@.push(FRAME_END),
{
    let mut frame: Vec<u8> = Vec::new();
    let mut i: usize = 0;
    while i < serialized.len()
        invariant
            i <= serialized.len(),
            frame@ == serialized@.take(i as int),
        decreases serialized.len() - i,
    {
        frame.push(serialized[i]);
        proof {
            assert(serialized@.take(i + 1) =~= serialized@.take(i as int).push(
                serialized@[i as int],
            ));
        }
        i = i + 1;
    }
    proof {
        assert(serialized@.take(serialized@.len() as int) =~= serialized@);
    }
    frame.push(FRAME_END);
    frame
}

impl RetryPolicy {
    /// The policy a configuration asks for: its number of attempts, with the
    /// fixed pause in between.
    pub fn from_config(config: &TransmitterConfig) -> (policy: Self)
        ensures
            policy == (RetryPolicy {
                max_attempts: config.retry_attempts,
                backoff_ms: RETRY_BACKOFF_MS,
            }),
    {
        RetryPolicy { max_attempts: config.retry_attempts, backoff_ms: RETRY_BACKOFF_MS }
    }

    /// What follows the failure of an attempt, `failures` attempts having
    /// failed by now: another attempt after the pause while fewer than
    /// `max_attempts` have failed, and no more after that.
    pub fn after_failure(&self, failures: usize) -> (step: RetryStep)
        ensures
            step == if failures < self.max_attempts {
                RetryStep::RetryAfter { backoff_ms: self.backoff_ms }
            } else {
                RetryStep::GiveUp
            },
    {
        if failures < self.max_attempts {
            RetryStep::RetryAfter { backoff_ms: self.backoff_ms }
        } else {
            RetryStep::GiveUp
        }
    }
}

/// The medium that a configuration names: `"tcp"`, `"shared_memory"` or `"channel"`.
pub open spec fn medium_named(name: Seq<char>) -> Option<ConnectionType> {
    if name == "tcp"@ {
        Some(ConnectionType::TcpSocket)
    } else if name == "shared_memory"@ {
        Some(ConnectionType::SharedMemory)
    } else if name == "channel"@ {
        Some(ConnectionType::CrossbeamChannel)
    } else {
        None
    }
}

/// The feedback that the simulated shared-memory medium makes up at `now_ms`.
pub open spec fn is_simulated_feedback(feedback: ActuatorFeedback, now_ms: u128) -> bool {
    &&& feedback.timestamp == now_ms
    &&& feedback.actuator_id@ == "sim_actuator"@
    &&& feedback.status == ActuatorStatus::Normal
    &&& feedback.message matches Some(text) && text@ == "Simulation feedback"@
}

impl TransmitError {
    /// The error in words.
    pub fn message(&self) -> (text: String)
        ensures
            text@ == match *self {
                TransmitError::EndpointMissing => "TCP endpoint not configured"@,
                TransmitError::SharedMemoryMissing => "Shared memory name not configured"@,
                TransmitError::NotConnected => "Not connected to actuator system"@,
                TransmitError::FeedbackUnsupported => "Feedback not implemented for CrossbeamChannel"@,
                TransmitError::ClockBeforeEpoch => "Time went backwards"@,
            },
    {
        match self {
            TransmitError::EndpointMissing => String::from_str("TCP endpoint not configured"),
            TransmitError::SharedMemoryMissing => String::from_str(
                "Shared memory name not configured",
            ),
            TransmitError::NotConnected => String::from_str("Not connected to actuator system"),
            TransmitError::FeedbackUnsupported => String::from_str(
                "Feedback not implemented for CrossbeamChannel",
            ),
            TransmitError::ClockBeforeEpoch => String::from_str("Time went backwards"),
        }
    }
}

impl DataTransmitter {
    /// An unconnected transmitter for one medium, with nothing configured.
    pub fn new(connection_type: ConnectionType) -> (transmitter: Self)
        ensures
            transmitter.connection_type == connection_type,
            transmitter.endpoint is None,
            transmitter.shared_mem_name is None,
            !transmitter.connected,
    {
        DataTransmitter { connection_type, endpoint: None, shared_mem_name: None, connected: false }
    }

    /// The same transmitter with a TCP endpoint.
    pub fn with_tcp_endpoint(self, endpoint: &str) -> (transmitter: Self)
        ensures
            transmitter.endpoint matches Some(text) && text@ == endpoint@,
            transmitter.connection_type == self.connection_type,
            transmitter.shared_mem_name == self.shared_mem_name,
            transmitter.connected == self.connected,
    {
        let mut transmitter = self;
        transmitter.endpoint = Some(String::from_str(endpoint));
        transmitter
    }

    /// The same transmitter with a shared-memory name.
    pub fn with_shared_memory(self, name: &str) -> (transmitter: Self)
        ensures
            transmitter.shared_mem_name matches Some(text) && text@ == name@,
            transmitter.connection_type == self.connection_type,
            transmitter.endpoint == self.endpoint,
            transmitter.connected == self.connected,
    {
        let mut transmitter = self;
        transmitter.shared_mem_name = Some(String::from_str(name));
        transmitter
    }

    /// The transmitter that a configuration asks for, or nothing when the
    /// configuration names no known medium.
    pub fn from_config(config: &TransmitterConfig) -> (transmitter: Option<Self>)
        ensures
            match medium_named(config.connection_type@) {
                None => transmitter is None,
                Some(medium) => {
                    &&& transmitter matches Some(made)
                    &&& made.connection_type == medium
                    &&& !made.connected
                    &&& match medium {
                        ConnectionType::TcpSocket => {
                            &&& made.endpoint matches Some(text) && text@ == config.endpoint@
                            &&& made.shared_mem_name is None
                        },
                        ConnectionType::SharedMemory => {
                            &&& made.shared_mem_name matches Some(text) && text@
                                == config.shared_mem_name@
                            &&& made.endpoint is None
                        },
                        ConnectionType::CrossbeamChannel => {
                            &&& made.endpoint is None
                            &&& made.shared_mem_name is None
                        },
                    }
                },
            },
    {
        if config.connection_type == String::from_str("tcp") {
            Some(
                DataTransmitter::new(ConnectionType::TcpSocket).with_tcp_endpoint(
                    config.endpoint.as_str(),
                ),
            )
        } else if config.connection_type == String::from_str("shared_memory") {
            Some(
                DataTransmitter::new(ConnectionType::SharedMemory).with_shared_memory(
                    config.shared_mem_name.as_str(),
                ),
            )
        } else if config.connection_type == String::from_str("channel") {
            Some(DataTransmitter::new(ConnectionType::CrossbeamChannel))
        } else {
            None
        }
    }

    /// Connects as far as that takes no I/O. Shared memory and the channel
    /// are connected at once, shared memory only if it has a name. TCP needs
    /// an endpoint, and is connected only once the caller has opened the
    /// stream and said so.
    pub fn connect(&mut self) -> (outcome: Result<ConnectStep, TransmitError>)
        ensures
            final(self).connection_type == old(self).connection_type,
            final(self).endpoint == old(self).endpoint,
            final(self).shared_mem_name == old(self).shared_mem_name,
            match old(self).connection_type {
                ConnectionType::TcpSocket => {
                    &&& final(self).connected == old(self).connected
                    &&& match old(self).endpoint {
                        Some(endpoint) => outcome matches Ok(ConnectStep::Dial { endpoint: to })
                            && to@ == endpoint@,
                        None => outcome == Err::<ConnectStep, TransmitError>(
                            TransmitError::EndpointMissing,
                        ),
                    }
                },
                ConnectionType::SharedMemory => match old(self).shared_mem_name {
                    Some(_) => outcome matches Ok(ConnectStep::Ready) && final(self).connected,
                    None => outcome == Err::<ConnectStep, TransmitError>(
                        TransmitError::SharedMemoryMissing,
                    ) && final(self).connected == old(self).connected,
                },
                ConnectionType::CrossbeamChannel => outcome matches Ok(ConnectStep::Ready) && final(self).connected,
            },
    {
        match self.connection_type {
            ConnectionType::TcpSocket => match &self.endpoint {
                Some(endpoint) => Ok(ConnectStep::Dial { endpoint: endpoint.clone() }),
                None => Err(TransmitError::EndpointMissing),
            },
            ConnectionType::SharedMemory => {
                if self.shared_mem_name.is_some() {
                    self.connected = true;
                    Ok(ConnectStep::Ready)
                } else {
                    Err(TransmitError::SharedMemoryMissing)
                }
            },
            ConnectionType::CrossbeamChannel => {
                self.connected = true;
                Ok(ConnectStep::Ready)
            },
        }
    }

    /// Records that the caller has opened the stream.
    pub fn connection_opened(&mut self)
        ensures
            *final(self) == (DataTransmitter { connected: true, ..*old(self) }),
    {
        self.connected = true;
    }

    /// What sending one serialised reading takes. An unconnected transmitter
    /// sends nothing.
    pub fn send_data(&self, serialized: &[u8]) -> (outcome: Result<SendStep, TransmitError>)
        ensures
            !self.connected ==> outcome == Err::<SendStep, TransmitError>(
                TransmitError::NotConnected,
            ),
            self.connected ==> match self.connection_type {
                ConnectionType::TcpSocket => outcome matches Ok(SendStep::Write { frame })
                    && frame@ == serialized@.push(FRAME_END),
                ConnectionType::SharedMemory => outcome matches Ok(SendStep::Pause { micros })
                    && micros == SHARED_MEMORY_PAUSE_US,
                ConnectionType::CrossbeamChannel => outcome matches Ok(SendStep::Nothing),
            },
    {
        if !self.connected {
            return Err(TransmitError::NotConnected);
        }
        match self.connection_type {
            ConnectionType::TcpSocket => Ok(SendStep::Write { frame: frame_of(serialized) }),
            ConnectionType::SharedMemory => Ok(SendStep::Pause { micros: SHARED_MEMORY_PAUSE_US }),
            ConnectionType::CrossbeamChannel => Ok(SendStep::Nothing),
        }
    }

    /// Where the next feedback comes from at `now_ms`.
    pub fn receive_feedback_at(&self, now_ms: u128) -> (outcome: Result<FeedbackStep, TransmitError>)
        ensures
            !self.connected ==> outcome == Err::<FeedbackStep, TransmitError>(
                TransmitError::NotConnected,
            ),
            self.connected ==> match self.connection_type {
                ConnectionType::TcpSocket => outcome matches Ok(FeedbackStep::ReadFrame),
                ConnectionType::SharedMemory => outcome matches Ok(
                    FeedbackStep::Simulated { feedback },
                ) && is_simulated_feedback(feedback, now_ms),
                ConnectionType::CrossbeamChannel => outcome == Err::<FeedbackStep, TransmitError>(
                    TransmitError::FeedbackUnsupported,
                ),
            },
    {
        if !self.connected {
            return Err(TransmitError::NotConnected);
        }
        match self.connection_type {
            ConnectionType::TcpSocket => Ok(FeedbackStep::ReadFrame),
            ConnectionType::SharedMemory => Ok(
                FeedbackStep::Simulated {
                    feedback: ActuatorFeedback {
                        timestamp: now_ms,
                        actuator_id: String::from_str("sim_actuator"),
                        status: ActuatorStatus::Normal,
                        message: Some(String::from_str("Simulation feedback")),
                    },
                },
            ),
            ConnectionType::CrossbeamChannel => Err(TransmitError::FeedbackUnsupported),
        }
    }

    /// Where the next feedback comes from: as `receive_feedback_at` for
    /// whatever the wall clock reads. Only the simulated medium reads the
    /// clock; it gives no feedback where the clock reads earlier than the
    /// Unix epoch.
    pub fn receive_feedback(&self) -> (outcome: Result<FeedbackStep, TransmitError>)
        ensures
            !self.connected ==> outcome == Err::<FeedbackStep, TransmitError>(
                TransmitError::NotConnected,
            ),
            self.connected ==> match self.connection_type {
                ConnectionType::TcpSocket => outcome matches Ok(FeedbackStep::ReadFrame),
                ConnectionType::SharedMemory => match outcome {
                    Ok(FeedbackStep::Simulated { feedback }) => exists|now_ms: u128|
                        is_simulated_feedback(feedback, now_ms),
                    Ok(FeedbackStep::ReadFrame) => false,
                    Err(error) => error == TransmitError::ClockBeforeEpoch,
                },
                ConnectionType::CrossbeamChannel => outcome == Err::<FeedbackStep, TransmitError>(
                    TransmitError::FeedbackUnsupported,
                ),
            },
    {
        if self.connected && self.connection_type == ConnectionType::SharedMemory {
            match wall_clock_ms() {
                Some(now_ms) => {
                    let outcome = self.receive_feedback_at(now_ms);
                    proof {
                        assert(is_simulated_feedback(outcome->Ok_0->feedback, now_ms));
                    }
                    outcome
                },
                None => Err(TransmitError::ClockBeforeEpoch),
            }
        } else {
            self.receive_feedback_at(0)
        }
    }
}

} // verus!
