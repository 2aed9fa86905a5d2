//! Verified core of an external-site window: URL admission, window labels,
//! navigation memory, window geometry and the persistence debounce.
use vstd::prelude::*;

pub mod admission;
pub mod debounce;
pub mod geometry;
pub mod ipv4;
pub mod labels;
pub mod navigation;
pub mod open_flow;
pub mod text;

verus! {

} // verus!
