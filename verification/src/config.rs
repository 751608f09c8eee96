//! Startup configuration handed to the interpreter by its surroundings.

use vstd::prelude::*;

verus! {

/// The startup arguments: where the program image lives, and the size of
/// the window that will present the framebuffer.
pub struct Args {
    /// Path of the program image to load.
    pub rom_path: String,
    /// Window width in pixels.
    pub width: u32,
    /// Window height in pixels.
    pub height: u32,
}

} // verus!
