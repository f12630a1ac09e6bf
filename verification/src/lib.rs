//! Measurement core of a LAN throughput test: a client counts the bytes of a
//! stream, samples the transfer rate at a fixed cadence, keeps a sliding
//! window and the peak, and stops when a shutdown signal fires; a server is
//! found by its advertisement or by its address.

pub mod address;
pub mod advertise;
pub mod aggregator;
pub mod clock;
pub mod discovery;
pub mod ingester;
pub mod measurement;
pub mod net;
pub mod reporter;
pub mod server;
pub mod shutdown;
pub mod text;
