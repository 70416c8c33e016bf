//! Client-side coordination logic for a multi-party task platform: versioned
//! key paths, a distributed lock over create-if-absent storage, the change-feed
//! waiter, the protocol runner's decisions and peer-to-peer variable transfer.
use vstd::prelude::*;

pub mod auth;
pub mod change_feed;
pub mod chunk;
pub mod colink;
pub mod inbox;
pub mod key_path;
pub mod keys;
pub mod lock;
pub mod numfmt;
pub mod policy;
pub mod protocol;
pub mod runner;
mod random;
pub mod storage_macro;
pub mod task;
pub mod task_wait;
pub mod transfer;
pub mod text;

verus! {

} // verus!
