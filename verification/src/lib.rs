//! Client, session and agent core for a JSON-RPC style tool protocol.
//!
//! The crate models the wire protocol (envelopes, tool descriptors,
//! conversation messages), endpoint sessions with cached catalogs, a
//! single- or multi-endpoint client, a name-keyed tool server registry,
//! and the agent loop that alternates model turns with tool executions.

pub mod error;
pub mod config;
pub mod connectors;
pub mod envelope;
pub mod inspector;
pub mod json;
pub mod logging;
pub mod protocol;
pub mod registry;
pub mod render;
pub mod server;
pub mod session;
pub mod adapters;
pub mod agent;
pub mod client;
pub mod text;
pub mod wire;

use vstd::prelude::*;

verus! {

} // verus!
