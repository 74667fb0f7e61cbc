//! The configuration of the window that the world is shown in.

use vstd::prelude::*;
use vstd::string::StringExecFns;

verus! {

/// How a window takes up the screen.
#[derive(Debug, Copy, Clone, PartialEq, Eq, Structural)]
pub enum WindowMode {
    Windowed,
}

/// The size, the title and the mode of a window.
#[derive(Debug)]
pub struct WindowConfig {
    pub width: u16,
    pub height: u16,
    pub name: String,
    pub mode: WindowMode,
}

impl WindowConfig {
    pub fn new(width: u16, height: u16, name: &str, mode: WindowMode) -> (res: WindowConfig)
        ensures
            res.width == width,
            res.height == height,
            res.name@ == name@,
            res.mode == mode,
    {
        WindowConfig { width, height, name: String::from_str(name), mode }
    }
}

} // verus!
