//! Latency probing over raw IP: the frame formats, the sender's schedule and
//! the receiver's reading of captured packets.

pub mod be;
pub mod codec;
pub mod decimal;
pub mod receiver;
pub mod sender;
