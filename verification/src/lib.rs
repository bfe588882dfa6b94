//! A bridge between two messaging fabrics: inbound coordinate requests are
//! relayed to a downstream integer-addition service, and the downstream
//! result (or failure) is folded into a single outbound response.
//!
//! The crate holds the bridging logic itself: derivation of a stable,
//! length-bounded identifier for the downstream service endpoint
//! ([`sanitize`]), and the per-request relay state machine with its
//! fail-soft sentinel policy ([`relay`]).

pub mod relay;
pub mod sanitize;
