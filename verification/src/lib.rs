//! A small software frame library: colors, frame images and the byte layouts
//! they travel through on their way to a window or a PNG file.

pub mod animation;
pub mod color;
pub mod frame;
pub mod presentation;
pub mod readback;

use vstd::prelude::*;

verus! {

/// Greeting of the renderer library.
pub const MESSAGE: &'static str = "hello from renderer!";

} // verus!
