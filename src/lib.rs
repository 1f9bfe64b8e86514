//! Flash programming routine for the CH32V208 flash controller.
//!
//! The register protocol (unlock, sector erase, page program, bounded busy
//! polling and error classification) is a verified state machine: an
//! [`operation::Operation`] asks for one register access at a time and decides,
//! from what its driver reports back, what to ask next and when it is over.
use vstd::prelude::*;

pub mod algorithm;
pub mod error;
pub mod laws;
pub mod operation;
pub mod poll;
pub mod regs;

verus! {

} // verus!
