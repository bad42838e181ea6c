//! Typed message channels over byte streams: a framed single-peer channel,
//! a multiplexing multi-peer channel with admission control and fair fan-in,
//! and split halves for independently owned receive (fan-in) and broadcast
//! (fan-out) sides.
//!
//! The channel logic here is pure state: transport readiness, flush
//! completion, arriving bytes and end-of-stream are handed in as events by
//! whatever drives the actual sockets, and every transition carries a
//! contract.

pub mod addr;
pub mod broadcast;
pub mod bytebuf;
pub mod channel;
pub mod codec;
pub mod frame;
pub mod mpsc;
pub mod multi_channel;
pub mod spsc;
pub mod errors;
