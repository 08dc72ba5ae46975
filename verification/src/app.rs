//! The application-facing types of the frame loop: the result values an
//! application's update and draw steps return, and the accumulated input
//! state handed to the update step.

use vstd::prelude::*;

verus! {

/// Returned by an application's update step to tell the frame loop whether
/// to keep ticking or to stop and exit.
#[derive(Clone, Copy)]
pub enum TickResult {
    /// Instructs the loop to continue ticking.
    Continue,
    /// Instructs the loop to stop and exit the application.
    Stop,
}

/// Returned by an application's draw step to say whether the frame's planes
/// were written to, and hence whether the window needs redrawing.
#[derive(Clone, Copy)]
pub enum PresentResult {
    /// Changes were made; the window must be redrawn.
    Changed,
    /// Nothing was drawn; the loop may skip the redraw.
    NoChanges,
}

/// A snapshot of the most recent key transition together with the current
/// held state of the modifier keys.
///
/// `pressed`, `vkey` and `code` are one-shot: they describe a single key
/// event and are cleared at the end of every loop iteration. `shift`,
/// `ctrl` and `alt` reflect the modifiers currently held and persist until
/// the next modifier change.
#[derive(Debug, Copy, Clone)]
pub struct KeyState {
    /// If `vkey` is not `None`, true when the key was pressed and false
    /// when it was released.
    pub pressed: bool,
    /// True if either shift key is being held down.
    pub shift: bool,
    /// True if either ctrl key is being held down.
    pub ctrl: bool,
    /// True if the alt key is being held down.
    pub alt: bool,
    /// The key code of the key that was pressed or released, if any.
    pub vkey: Option<u32>,
    /// The character the pressed key maps to, if any.
    pub code: Option<char>,
}

/// A snapshot of a mouse event: pointer position, button state and whether
/// the pointer is on the window.
pub struct MouseState {
    /// True if the mouse pointer is currently on the application window.
    pub on_window: bool,
    /// True if the primary mouse button was clicked.
    pub primary_pressed: bool,
    /// True if the secondary mouse button was clicked.
    pub secondary_pressed: bool,
    /// The X coordinate of the pointer, relative to the window's top left
    /// corner.
    pub x: i32,
    /// The Y coordinate of the pointer, relative to the window's top left
    /// corner.
    pub y: i32,
}

/// Everything handed to an application's update step: elapsed time, the
/// current character-grid dimensions and the accumulated input state.
pub struct TickInput {
    /// Microseconds elapsed since the update step last ran.
    pub dt: u64,
    /// Current width of the window, in character cells.
    pub width: u32,
    /// Current height of the window, in character cells.
    pub height: u32,
    /// The most recent key transition and the held modifier state.
    pub key: KeyState,
    /// The most recent mouse event, when one occurred this iteration.
    pub mouse: Option<MouseState>,
}

} // verus!
