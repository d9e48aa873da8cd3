//! The types of computer use (driving the mouse, the keyboard and
//! screenshots). Computer use is not supported on any platform.
use std::borrow::Cow;
use vstd::prelude::*;

verus! {

/// The platform that computer use runs on.
#[derive(Debug, Clone, Copy, Eq, PartialEq, Structural)]
pub enum Platform {
    Mac,
    Windows,
    LinuxX11,
    LinuxWayland,
}

/// Computer use is supported on no platform.
pub fn is_supported_on_current_platform() -> (r: bool)
    ensures
        !r,
{
    false
}

#[derive(Debug, Clone, Copy, Eq, PartialEq, Structural, Hash)]
pub enum Key {
    Keycode(i32),
    Char(char),
}

#[derive(Debug, Clone, Copy, Eq, PartialEq, Structural)]
pub enum ScrollDirection {
    Up,
    Down,
    Left,
    Right,
}

#[derive(Debug, Clone, Copy, Eq, PartialEq, Structural)]
pub enum ScrollDistance {
    Pixels(i32),
    Clicks(i32),
}

#[derive(Debug, Clone, Copy, Eq, PartialEq, Structural)]
pub enum MouseButton {
    Left,
    Right,
    Middle,
    Back,
    Forward,
}

/// A captured screenshot: its size, the size of the screen it was taken
/// from, and the encoded image.
pub struct Screenshot {
    pub width: usize,
    pub height: usize,
    pub original_width: usize,
    pub original_height: usize,
    pub data: Vec<u8>,
    pub mime_type: Cow<'static, str>,
}

} // verus!
