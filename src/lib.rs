//! Encoder and pacing core for multicast paging broadcasts to desk phones.
//!
//! Raw codec audio is cut into fixed-size frames, each frame is wrapped in a
//! packet that carries the session identity, contiguous sequence/timestamp
//! counters, a start-of-talk marker and the paging metadata (channel and
//! caller ID), and packets are released on an absolute time schedule.

pub mod codec;
pub mod frames;
pub mod packet;
pub mod pacing;
pub mod hex;
pub mod transmission;
