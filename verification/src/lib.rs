//! A doubletree-style cooperative traceroute engine: per-destination control
//! blocks drive adaptive backward/forward TTL probing, a stateless packet
//! codec embeds the probe TTL, phase and a timestamp in IP/UDP header fields,
//! and a round-based scheduler assembles the discovered hops into an
//! undirected topology graph.

pub mod addr;
pub mod dcb;
pub mod error;
pub mod network;
pub mod opt;
pub mod prober;
pub mod rng;
pub mod topo;
pub mod tracerouter;
pub mod utils;
