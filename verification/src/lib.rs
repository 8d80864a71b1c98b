//! A userspace network protocol stack: Ethernet, ARP, IPv4, ICMP and UDP,
//! layered over exchangeable link devices (null, loopback, Ethernet-over-TAP).
//!
//! The stack itself is pure state manipulation: link drivers hand raw frames
//! in, and egress frames are staged on per-device transmit queues for the
//! caller to write to the actual link.

pub mod app;
pub mod devices;
pub mod errors;
pub mod interrupt;
pub mod protocols;
pub mod transport;
pub mod utils;
