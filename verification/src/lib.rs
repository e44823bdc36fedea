//! Passive multi-chain observer for an IBC relay network.
//!
//! For each configured chain the observer ingests finalized blocks,
//! extracts IBC packet-bearing transactions, and decides per packet which
//! of possibly several competing relayer submissions effected it (landed
//! first) versus being an uneffected duplicate. The decisions feed a set
//! of Prometheus counters and an append-only dedup index keyed on the packet
//! identity.

pub mod collect;
pub mod config;
pub mod digest;
pub mod metrics;
pub mod msg;
pub mod populate;
pub mod status;
pub mod store;
pub mod text;
