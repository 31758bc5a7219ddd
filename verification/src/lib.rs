//! Core of a gateway in front of a satellite-tracking data service: the
//! session state machine, the time-bounded cache of per-object payloads and
//! the searchable catalog of tracked objects.

pub mod text;
pub mod error;
pub mod object;
pub mod fuzzy;
pub mod ranking;
pub mod catalog;
pub mod cache;
pub mod session;

use vstd::prelude::*;

verus! {

/// Numeric catalog number that names a tracked object.
pub type NoradId = usize;

} // verus!
