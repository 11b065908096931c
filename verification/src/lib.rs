//! Launcher library for wrapping a command in an agent namespace.
//!
//! The verified core: the budget-spec parser, session-id validation and
//! synthesis, the assay verdict extractor, mock-source resolution, the
//! error mapping of namespace creation, and the precedence ladder that
//! decides how a session id is obtained.

pub mod assay;
pub mod budget;
pub mod launcher;
pub mod mock;
pub mod text;
pub mod unshare;

use vstd::prelude::*;

verus! {

/// Crate version surfaced through `--version`.
pub const VERSION: &'static str = "0.4.0";

} // verus!
