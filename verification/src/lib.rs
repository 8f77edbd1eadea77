//! Container network attachment library.
//!
//! Builds and interprets the routing-protocol messages that wire a
//! container's network namespace to the host over a veth pair, drives the
//! attach/detach operation as an explicit state machine, parses and
//! extracts the protocol's JSON documents, and models the kernel
//! fast-path redirect keys shared by the two socket hooks.

use vstd::prelude::*;

pub mod addr;
pub mod engine;
pub mod fastpath;
pub mod json;
pub mod ops;
pub mod render;
pub mod textfmt;
pub mod types;
pub mod wire;

pub use crate::engine::Interface;
pub use crate::ops::cni;
pub use crate::types::ErrorCode;

verus! {

} // verus!
