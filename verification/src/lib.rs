//! Core of a build-tree execution interceptor.
//!
//! A per-process stand-in transparently replaces a real tool: it discovers
//! the real executable on the search path, reports the observed invocation
//! to a collector, then runs the real tool and relays its exit status.
//! A recognition engine classifies each observed invocation as a compiler
//! call (decomposed into compilation passes), a deliberately ignored tool,
//! or an unrecognized command.
//!
//! This crate holds the verified logic of both subsystems: the data model,
//! the classification rules, the search-path resolution, and the wire
//! encoding of reported events. Process management, file-system probing and
//! networking live outside, in the unverified front end that feeds plain
//! values into these functions.

pub mod execution;
pub mod interpreters;
pub mod recognition;
pub mod semantic;
pub mod strings;
pub mod wire;
pub mod wrapper;

use vstd::prelude::*;

verus! {

} // verus!
