//! Verified core of Pointory, a screen annotation overlay: the annotation
//! session and its commands, per-monitor stroke history with undo and redo,
//! settings and shortcut validation, font records, toolbar docking,
//! screenshots and GIF exports, classroom sharing, the spotlight, and the
//! requests sent to the local caption helpers.
use vstd::prelude::*;

pub mod captions;
pub mod capture;
pub mod docking;
pub mod fonts;
pub mod history;
pub mod model;
pub mod profile;
pub mod session;
pub mod sharing;
pub mod spotlight;
pub mod text;

verus! {
} // verus!
