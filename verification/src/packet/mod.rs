//! Wire formats of the headers that the probes send and receive.

pub mod dns;
pub mod icmp;
pub mod ip;
pub mod tcp;
pub mod udp;
pub mod wire;
