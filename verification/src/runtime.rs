//! The unified runtime interface: configuration, errors and input kinds
//! shared by every game engine (Light, Cocos, Godot, Unreal).

use vstd::prelude::*;

verus! {

/// How a runtime is set up.
#[derive(Debug, Clone, Copy)]
pub struct RuntimeConfig {
    /// Canvas width.
    pub width: u32,
    /// Canvas height.
    pub height: u32,
    /// Target frame rate.
    pub target_fps: u32,
    /// Background colour (RGBA).
    pub background_color: [u8; 4],
}

impl Default for RuntimeConfig {
    /// 1280x720 at 60 frames per second on opaque black.
    fn default() -> (c: Self)
        ensures
            c.width == 1280,
            c.height == 720,
            c.target_fps == 60,
            c.background_color@ == seq![0u8, 0u8, 0u8, 255u8],
    {
        let c = RuntimeConfig {
            width: 1280,
            height: 720,
            target_fps: 60,
            background_color: [0, 0, 0, 255],
        };
        assert(c.background_color@ =~= seq![0u8, 0u8, 0u8, 255u8]);
        c
    }
}

/// Why a runtime operation failed.
#[derive(Debug)]
pub enum RuntimeError {
    InitFailed(String),
    UpdateFailed(String),
    RenderFailed(String),
    EventFailed(String),
    ShutdownFailed(String),
    Unsupported(String),
}

impl RuntimeError {
    /// The text that describes the error.
    pub open spec fn spec_message(&self) -> Seq<char> {
        match self {
            RuntimeError::InitFailed(m) => "initialization failed: "@ + m@,
            RuntimeError::UpdateFailed(m) => "update failed: "@ + m@,
            RuntimeError::RenderFailed(m) => "render failed: "@ + m@,
            RuntimeError::EventFailed(m) => "event handling failed: "@ + m@,
            RuntimeError::ShutdownFailed(m) => "shutdown failed: "@ + m@,
            RuntimeError::Unsupported(m) => "unsupported operation: "@ + m@,
        }
    }

    /// The text that describes the error.
    pub fn message(&self) -> (s: String)
        ensures
            s@ == self.spec_message(),
    {
        match self {
            RuntimeError::InitFailed(m) => String::from_str("initialization failed: ").concat(m.as_str()),
            RuntimeError::UpdateFailed(m) => String::from_str("update failed: ").concat(m.as_str()),
            RuntimeError::RenderFailed(m) => String::from_str("render failed: ").concat(m.as_str()),
            RuntimeError::EventFailed(m) => String::from_str("event handling failed: ").concat(m.as_str()),
            RuntimeError::ShutdownFailed(m) => String::from_str("shutdown failed: ").concat(m.as_str()),
            RuntimeError::Unsupported(m) => String::from_str("unsupported operation: ").concat(m.as_str()),
        }
    }
}

/// A mouse button.
#[derive(Debug, Clone, Copy, PartialEq, Eq, Structural)]
pub enum MouseButton {
    Left,
    Right,
    Middle,
}

} // verus!
