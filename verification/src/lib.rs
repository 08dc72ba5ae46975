//! A character-grid compositing library: grid buffers holding ink colour,
//! paper colour and character code planes, clipped blit and drawing
//! primitives, and the decision logic of the frame loop that drives them.

mod app;
mod blit;
mod builder;
mod colour;
mod error;
mod grid;
mod main_loop;
mod present;

pub use app::{KeyState, MouseState, PresentResult, TickInput, TickResult};
pub use blit::{blit, BlitOps, BlitRect};
pub use builder::{font_from_decoded, load_font_image, Builder, Font, FontData, FontImageFormat};
pub use colour::{colour, Colour};
pub use error::Error;
pub use main_loop::{
    apply_key_event, apply_modifiers, chars_size, clear_transient, fit_length, grid_replacement,
    intercept_key, render_recovery, run_iterations, KeyDisposition, LoopTrace, RenderRecovery,
    RenderStatus, KEY_ESCAPE, KEY_RETURN,
};
pub use present::{Char, Image, Point, PresentInput};
