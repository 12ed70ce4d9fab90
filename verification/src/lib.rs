//! The decision logic of a throughput benchmark for a QUIC-like transport.
//!
//! The benchmark drives many streams and datagrams between a client and a
//! server. Everything that touches the network lives outside this library;
//! here are the rules that decide what each driver does next, the counters
//! they share, and the configuration checks made before any traffic flows.

pub mod acceptor;
pub mod counters;
pub mod datagram;
pub mod identity;
pub mod payload;
pub mod receive;
pub mod reporter;
pub mod send;
pub mod setup;
