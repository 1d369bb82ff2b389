//! Translation of host input events into program input events.
//!
//! The mapping is deterministic and synchronous: each host event yields a
//! fixed, ordered batch of program events.  The host follows every batch with
//! a forced update pass, so input latency is never batched away.

use vstd::prelude::*;

use crate::geometry::CursorPos;

verus! {

/// Host button code for the primary (left) mouse button.
pub const BTN_PRIMARY: u32 = 0x110;

/// Host button code for the secondary (right) mouse button.
pub const BTN_SECONDARY: u32 = 0x111;

/// Host button code for the middle mouse button.
pub const BTN_MIDDLE: u32 = 0x112;

/// A mouse button as the program sees it.
#[derive(Clone, Copy, Debug, PartialEq, Eq, Structural)]
pub enum MouseButtonKind {
    Primary,
    Secondary,
    Middle,
    Other(u8),
}

/// The keyboard modifier bits handed to the program: shift, alt, ctrl and
/// the logo key, each tested independently.
#[derive(Clone, Copy, Debug, PartialEq, Eq, Structural)]
pub struct ModifierState {
    pub shift: bool,
    pub alt: bool,
    pub ctrl: bool,
    pub logo: bool,
}

/// A program-level input event.  Scroll amounts are exact integers: whole
/// lines for discrete (wheel-step) scrolling, thousandths of a logical pixel
/// for continuous scrolling.
#[derive(Clone, Copy, Debug, PartialEq, Eq, Structural)]
pub enum InputEvent {
    CursorEntered,
    CursorMoved(CursorPos),
    CursorLeft,
    ButtonPressed(MouseButtonKind),
    ButtonReleased(MouseButtonKind),
    WheelLines(i32, i32),
    WheelPixels(i64, i64),
    ModifiersChanged(ModifierState),
    Focused,
    Unfocused,
}

/// The button a host button code stands for: the three well-known codes map
/// to the three named buttons, any other code is passed through as its low
/// byte.
pub open spec fn map_button_spec(code: u32) -> MouseButtonKind {
    if code == BTN_PRIMARY {
        MouseButtonKind::Primary
    } else if code == BTN_SECONDARY {
        MouseButtonKind::Secondary
    } else if code == BTN_MIDDLE {
        MouseButtonKind::Middle
    } else {
        MouseButtonKind::Other((code % 256) as u8)
    }
}

/// Translates a host button code into the program's button.
pub fn map_button(code: u32) -> (r: MouseButtonKind)
    ensures
        r == map_button_spec(code),
{
    if code == BTN_PRIMARY {
        MouseButtonKind::Primary
    } else if code == BTN_SECONDARY {
        MouseButtonKind::Secondary
    } else if code == BTN_MIDDLE {
        MouseButtonKind::Middle
    } else {
        MouseButtonKind::Other((code % 256) as u8)
    }
}

/// The scroll event for one host axis frame: a line-based delta when the
/// host reports discrete wheel steps, otherwise a pixel-based delta from the
/// continuous axis values (in thousandths of a logical pixel).
pub open spec fn axis_event_spec(
    discrete: Option<(i32, i32)>,
    axis_x: i64,
    axis_y: i64,
) -> InputEvent {
    match discrete {
        Some(d) => InputEvent::WheelLines(d.0, d.1),
        None => InputEvent::WheelPixels(axis_x, axis_y),
    }
}

/// Translates one host axis frame into the program's scroll event.
pub fn axis_event(discrete: Option<(i32, i32)>, axis_x: i64, axis_y: i64) -> (r: InputEvent)
    ensures
        r == axis_event_spec(discrete, axis_x, axis_y),
{
    match discrete {
        Some(d) => InputEvent::WheelLines(d.0, d.1),
        None => InputEvent::WheelPixels(axis_x, axis_y),
    }
}

/// Collects the host's modifier bits into one program modifier state.
pub fn gather_modifiers(shift: bool, alt: bool, ctrl: bool, logo: bool) -> (r: ModifierState)
    ensures
        r.shift == shift,
        r.alt == alt,
        r.ctrl == ctrl,
        r.logo == logo,
{
    ModifierState { shift, alt, ctrl, logo }
}

} // verus!
