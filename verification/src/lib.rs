//! Verified core of a Hyprland window switcher: most-recently-used ordering,
//! snapshot construction and de-duplication, thumbnail bookkeeping, focus
//! request de-duplication, keyboard navigation and frame conversion.
use vstd::prelude::*;

pub mod config;
pub mod text;
pub mod paths;
pub mod model;
pub mod table;
pub mod clock;
pub mod backend;
pub mod ordering;
pub mod refresh;
pub mod focus;
pub mod navigation;
pub mod presentation;
pub mod frame;
pub mod capture;
pub mod event_loop;
pub mod laws;
pub mod guarantees;

verus! {
} // verus!
