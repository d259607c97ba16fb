//! A multiplexed connection bridge: many TCP flows, each keyed by the
//! client's address, share one framed bidirectional stream.
pub mod frame;
pub mod addr_key;
pub mod node_id;
pub mod bridge;
pub mod registry;
