//! Floating-window layout engine for a desktop compositor.
//!
//! The engine owns placement, resizing, maximize/restore bookkeeping,
//! multi-monitor assignment, and paint-order composition for floating
//! windows. It works on a plain data model: windows, outputs and the
//! spatial index are held as ordinary values, so every rule of the
//! engine is stated and proved over integer geometry. The surrounding
//! compositor (protocol dispatch, input routing, the renderer) feeds
//! plain values in and carries the returned instructions out.

pub mod geometry;
pub mod laws;
pub mod layout;
pub mod model;
