//! Verified core of a closed-loop sensing and actuation pipeline.
//!
//! Every real-valued quantity is carried as a signed integer counting
//! thousandths of its unit, so that all arithmetic is exact and every
//! contract can be stated over mathematical integers.

pub mod channel;
pub mod clock;
pub mod config;
pub mod controller;
pub mod data_types;
pub mod executor;
pub mod generator;
pub mod metrics;
pub mod numeric;
pub mod processor;
pub mod receiver;
pub mod scheduler;
pub mod stats;
pub mod system;
pub mod text;
pub mod transmitter;
