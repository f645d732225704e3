//! Geometry, autohide and instance management of a desktop shell panel: a
//! strip anchored to one edge of an output that hosts applet windows.
//!
//! - `config`: panel configuration and the values derived from it.
//! - `windows`, `layout`: region sums, panel size, window placement.
//! - `negotiate`: size requests to the host and their acknowledgment.
//! - `visibility`: the autohide state machine.
//! - `orchestrator`: panel instances per output and configuration updates.
//! - `minimize`, `overflow`: minimize targets and the overflow button.

use vstd::prelude::*;

pub mod config;
pub mod geometry;
pub mod windows;
pub mod visibility;
pub mod space;
pub mod layout;
pub mod minimize;
pub mod negotiate;
pub mod orchestrator;
pub mod overflow;

verus! {

} // verus!
