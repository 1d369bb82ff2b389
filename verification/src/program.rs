//! The capability contract of the hosted UI program.
//!
//! The element drives any program that can run one update step: given the
//! full batch of queued messages, the current size, the cursor position (or
//! the out-of-bounds sentinel) and the theme, the program computes its new
//! view and reports whether the view changed, together with the effects the
//! step emitted.  Nothing is assumed about what a program returns; the
//! element's own contracts state what holds of every possible outcome.

use vstd::prelude::*;

use crate::effects::ProgramEffect;
use crate::geometry::CursorPos;
use crate::geometry::LogicalSize;

verus! {

/// What one program update step reports back.
#[derive(Debug)]
pub struct ProgramUpdate<T, A> {
    /// Whether the view tree changed, making every cached buffer stale.
    pub view_changed: bool,
    /// The effects the step emitted, in submission order.
    pub effects: Vec<ProgramEffect<T, A>>,
}

/// The theme handed to the program, fixed at the element's construction.
#[derive(Clone, Copy, Debug, PartialEq, Eq, Structural)]
pub enum ThemeKind {
    Dark,
}

/// A UI program the element can host.
pub trait Program {
    /// The message type delivered to update steps.
    type Message;

    /// An opaque deferred task: asynchronous work the host scheduler runs
    /// out of band, whose completion value re-enters as a message.
    type Task;

    /// An opaque immediate action, handed back to the host untouched.
    type Action;

    /// Runs one update step over the whole message batch and recomputes the
    /// view.
    fn update(
        &mut self,
        messages: Vec<Self::Message>,
        size: LogicalSize,
        cursor: CursorPos,
        theme: ThemeKind,
    ) -> ProgramUpdate<Self::Task, Self::Action>;
}

} // verus!
