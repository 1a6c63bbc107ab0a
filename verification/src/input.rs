//! Small enumerations of the graphics and input emulation: the GL matrix
//! mode, the UIKit touch phase and the dispatch route of an active pointer.
use vstd::prelude::*;
use crate::text::str_eq;

verus! {

pub const GL_MODELVIEW: u32 = 0x1700;
pub const GL_PROJECTION: u32 = 0x1701;
pub const GL_TEXTURE: u32 = 0x1702;

/// The GL matrix stack that matrix calls act on.
#[derive(Debug, Clone, Copy, PartialEq, Eq)]
pub enum GraphicsMatrixMode {
    ModelView,
    Projection,
    Texture,
}

impl GraphicsMatrixMode {
    /// The mode selected by a `glMatrixMode` argument.
    pub fn from_gl(value: u32) -> (m: Option<Self>)
        ensures
            value == GL_MODELVIEW ==> m == Some(GraphicsMatrixMode::ModelView),
            value == GL_PROJECTION ==> m == Some(GraphicsMatrixMode::Projection),
            value == GL_TEXTURE ==> m == Some(GraphicsMatrixMode::Texture),
            value != GL_MODELVIEW && value != GL_PROJECTION && value != GL_TEXTURE ==> m is None,
    {
        if value == GL_MODELVIEW {
            Some(GraphicsMatrixMode::ModelView)
        } else if value == GL_PROJECTION {
            Some(GraphicsMatrixMode::Projection)
        } else if value == GL_TEXTURE {
            Some(GraphicsMatrixMode::Texture)
        } else {
            None
        }
    }

    /// The mode's name in traces.
    pub fn as_str(self) -> (s: &'static str)
        ensures
            self == GraphicsMatrixMode::ModelView ==> s@ == "modelview"@,
            self == GraphicsMatrixMode::Projection ==> s@ == "projection"@,
            self == GraphicsMatrixMode::Texture ==> s@ == "texture"@,
    {
        match self {
            GraphicsMatrixMode::ModelView => "modelview",
            GraphicsMatrixMode::Projection => "projection",
            GraphicsMatrixMode::Texture => "texture",
        }
    }
}

/// A UIKit touch phase.
#[derive(Debug, Clone, Copy, PartialEq, Eq)]
pub enum SyntheticUiTouchPhase {
    Began,
    Moved,
    Stationary,
    Ended,
    Cancelled,
}

impl SyntheticUiTouchPhase {
    /// The touch phase of a host pointer phase: `down` begins, `move`
    /// moves, `up` ends, anything else is stationary.
    pub fn from_host_phase(phase: &str) -> (p: Self)
        ensures
            p == (if phase@ == "down"@ {
                SyntheticUiTouchPhase::Began
            } else if phase@ == "move"@ {
                SyntheticUiTouchPhase::Moved
            } else if phase@ == "up"@ {
                SyntheticUiTouchPhase::Ended
            } else {
                SyntheticUiTouchPhase::Stationary
            }),
    {
        if str_eq(phase, "down") {
            SyntheticUiTouchPhase::Began
        } else if str_eq(phase, "move") {
            SyntheticUiTouchPhase::Moved
        } else if str_eq(phase, "up") {
            SyntheticUiTouchPhase::Ended
        } else {
            SyntheticUiTouchPhase::Stationary
        }
    }

    /// The `UITouchPhase` value.
    pub fn as_uikit_value(self) -> (v: u32)
        ensures
            v == match self {
                SyntheticUiTouchPhase::Began => 0u32,
                SyntheticUiTouchPhase::Moved => 1u32,
                SyntheticUiTouchPhase::Stationary => 2u32,
                SyntheticUiTouchPhase::Ended => 3u32,
                SyntheticUiTouchPhase::Cancelled => 4u32,
            },
    {
        match self {
            SyntheticUiTouchPhase::Began => 0,
            SyntheticUiTouchPhase::Moved => 1,
            SyntheticUiTouchPhase::Stationary => 2,
            SyntheticUiTouchPhase::Ended => 3,
            SyntheticUiTouchPhase::Cancelled => 4,
        }
    }
}

/// Where an active pointer's events are delivered.
#[derive(Debug, Clone, Copy, PartialEq, Eq)]
pub enum ActivePointerDispatchKind {
    UIKit,
    Cocos,
    Hybrid,
}

impl ActivePointerDispatchKind {
    /// The route's name in traces.
    pub fn as_str(self) -> (s: &'static str)
        ensures
            self == ActivePointerDispatchKind::UIKit ==> s@ == "ui"@,
            self == ActivePointerDispatchKind::Cocos ==> s@ == "cocos"@,
            self == ActivePointerDispatchKind::Hybrid ==> s@ == "hybrid"@,
    {
        match self {
            ActivePointerDispatchKind::UIKit => "ui",
            ActivePointerDispatchKind::Cocos => "cocos",
            ActivePointerDispatchKind::Hybrid => "hybrid",
        }
    }
}

} // verus!
