//! Core of a distributed actor runtime: per-actor execution contexts,
//! a supervisor that routes messages onto keyed actor fleets, and the
//! inter-node discovery/handshake subsystem.

use vstd::prelude::*;

pub mod addr;
pub mod book;
pub mod codec;
pub mod config;
pub mod context;
pub mod demux;
pub mod discovery;
pub mod envelope;
pub mod errors;
pub mod mailbox;
pub mod request_table;
pub mod routers;
pub mod supervisor;
pub mod messages;
pub mod node_map;
pub mod wire;

verus! {

} // verus!
