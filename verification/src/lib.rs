//! Local-resource and reputation engine for an HTLC-forwarding node.
//!
//! The library decides, for each HTLC a peer asks the node to forward,
//! whether the hop may proceed, whether it is eligible for the reserved
//! protected resource pool, and what endorsement signal should accompany
//! it downstream. It keeps decaying statistics of fee revenue and
//! outstanding jamming risk per channel, per-HTLC in-flight state until
//! resolution, and an algebraic reputation test that classifies each
//! forward.
//!
//! All times are whole seconds; all amounts are milli-satoshi.

pub mod decaying_average;
pub mod interface;
pub mod reputation_tracker;
pub mod resource_bucketing;
pub mod resource_manager;
pub mod target_tracker;
