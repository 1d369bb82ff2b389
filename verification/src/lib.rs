//! Core state machine of an embedded-UI render element.
//!
//! A retained-mode UI program lives inside a host scene graph as a single
//! renderable, input-receiving element.  This crate holds the element's
//! decision logic: the per-scale pixel-buffer cache and its invariant, the
//! translation of host input events into program input events, the gating of
//! program update passes, the partitioning of program effects into deferred
//! tasks and immediate actions, and the planning of render passes.
//!
//! Scale factors and coordinates are carried as exact integers (thousandths),
//! so every comparison and every buffer-size computation is exact.  The host
//! collaborators — the compositor's outputs, the event loop, the scheduler and
//! the rasterizer — stay outside; they hand this core plain values and take
//! plain values back.

pub mod buffers;
pub mod effects;
pub mod element;
pub mod geometry;
pub mod input;
pub mod program;
