//! Munin: the decision core of a dual-engine browser automation framework.
//!
//! A fast reflex engine (System 1) and a slow planning engine (System 2)
//! cooperate to drive a browser. This crate holds the verified parts: DOM
//! candidate modelling and pruning, form and overlay heuristics, the recovery
//! memory, the confidence-gated decisions of the supervisor, the scenario
//! language, the JSON-RPC framing and request decoding, and the in-memory
//! test doubles for driver and engines.

pub mod text;
pub mod dom;
pub mod types;
pub mod config;
pub mod pruner;
pub mod form;
pub mod overlay;
pub mod probe;
pub mod decision;
pub mod memory;
pub mod supervisor;
pub mod scenario;
pub mod rpc;
pub mod driver;
pub mod mock_driver;
pub mod table;
pub mod mock_engines;
pub mod slow;
pub mod cli;
