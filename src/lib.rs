//! An in-memory key/value store: the table, its command handlers, the
//! on-disk encoding, snapshot rotation and the decisions taken by the
//! server's background services and connection handlers.

use vstd::prelude::*;

pub mod coredb;
pub mod kvengine;
pub mod diskstore;
pub mod snapshot;
pub mod config;
pub mod dbnet;

verus! {

} // verus!
