//! Lifecycle management for kernel-module package files kept in one directory.
//!
//! The library decides; the host performs. Listing the directory, spawning the
//! module manager and deleting files happen outside, and hand their results to
//! the functions here, which say which loads, unloads and deletions follow.
pub mod naming;
pub mod plan;
pub mod gateway;
pub mod batch;
pub mod supervisor;
pub mod laws;

use vstd::prelude::*;

verus! {

} // verus!
