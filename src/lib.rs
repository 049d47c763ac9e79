//! Bounded-time discovery of Orb servers advertised over multicast DNS.
//!
//! `record` turns one resolved service advertisement into a `DiscoveredServer`;
//! `session` holds the decisions of one discovery session as a state machine
//! that the host drives with the outcomes of its daemon and subscription calls.
pub mod record;
pub mod session;

pub use record::DiscoveredServer;
