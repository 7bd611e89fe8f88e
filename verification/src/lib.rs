//! A stateless TCP SYN port-discovery library.
//!
//! The library crafts raw SYN probe frames (link-layer, IPv4 and TCP headers
//! with correct lengths and checksums), dispatches many probes through a
//! bounded job-control pool that yields exactly one outcome per submitted
//! job, classifies replies into a reachability state, and aggregates the
//! outcomes either as a stream of records or grouped per host.
//!
//! Everything that sends or receives frames lives outside this crate; the
//! library works on plain values (bytes, addresses, ports) and states what it
//! computes in its contracts.

pub mod checksum;
pub mod codec;
pub mod net;
pub mod output;
pub mod pool;
pub mod proto;
pub mod resolve;
