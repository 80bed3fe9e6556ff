//! Coordinator core of a multi-party trusted-setup ceremony.
//!
//! The coordinator sequences the contributions of many mutually
//! distrusting participants to a shared parameter file: it admits
//! contributors to a queue, hands out per-chunk locks, records uploaded
//! contributions, drives their verification, and aggregates a finished
//! round before advancing the ceremony to the next one.

use vstd::prelude::*;

pub mod adapters;
pub mod chunk;
pub mod client;
pub mod codec;
pub mod contribution;
pub mod coordinator;
pub mod errors;
pub mod locator;
pub mod participant;
pub mod queue;
pub mod rest;
pub mod round;
pub mod signature;
pub mod storage;

verus! {

} // verus!
