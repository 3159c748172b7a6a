//! Identifiers and the small enums by which renderers and the runtime talk.
use vstd::prelude::*;
use crate::animation::Animation;
use crate::geometry::Bounds;
use crate::options::{Anchor, Layer, LayerOptions, Margins, OutputTarget};

verus! {

/// The id of a layer surface.
#[derive(Debug, Clone, Copy, PartialEq, Eq, PartialOrd, Ord, Hash, Structural)]
pub struct SurfaceId(pub u64);

/// The id of the surface that a single-surface program draws to.
pub fn default_surface_id() -> (r: SurfaceId)
    ensures
        r == SurfaceId(0),
{
    SurfaceId(0)
}

impl Default for SurfaceId {
    fn default() -> (r: Self)
        ensures
            r == SurfaceId(0),
    {
        SurfaceId(0)
    }
}

/// What a renderer asks of the runtime after an input event.
#[derive(Debug, Clone, Copy, PartialEq, Eq, Structural)]
pub enum InputAction {
    Ignore,
    Redraw,
    RedrawRegion(Bounds),
    Animate,
    Exit,
}

#[derive(Debug, Clone, Copy, PartialEq, Eq, Structural)]
pub enum PointerButtonState {
    Pressed,
    Released,
}

#[derive(Debug, Clone, Copy, PartialEq, Eq, Structural)]
pub enum PointerAxisSource {
    Wheel,
    Finger,
    Continuous,
    WheelTilt,
    Unknown,
}

/// What a renderer asks of the runtime after drawing a frame.
#[derive(Debug, Clone, Copy, PartialEq, Eq, Structural)]
pub enum FrameAction {
    Wait,
    Animate,
    Exit,
}

/// An output (monitor) as the runtime reports it.
#[derive(Debug, Clone, PartialEq, Eq)]
pub struct RenderOutput {
    pub id: u32,
    pub name: Option<String>,
    pub description: Option<String>,
    pub make: String,
    pub model: String,
    pub logical_position: Option<(i32, i32)>,
    pub logical_size: Option<(i32, i32)>,
    pub scale_factor: i32,
}

/// A surface as the runtime reports it.
#[derive(Debug, Clone, PartialEq, Eq)]
pub struct RenderSurfaceState {
    pub id: SurfaceId,
    pub configured: bool,
    pub width: u32,
    pub height: u32,
    pub output: Option<OutputTarget>,
    pub layer: Layer,
    pub anchor: Anchor,
    pub margins: Margins,
    pub scale: u32,
    pub animating: bool,
    pub frame_pending: bool,
}

#[verifier::external_type_specification]
#[verifier::external_body]
#[verifier::reject_recursive_types(T)]
pub struct ExReplySender<T>(std::sync::mpsc::Sender<T>);

/// `Sender::clone` from std: makes another handle to the same channel.
/// Nothing is claimed of the handle it returns.
pub assume_specification<T>[ <std::sync::mpsc::Sender<T> as std::clone::Clone>::clone ](
    sender: &std::sync::mpsc::Sender<T>,
) -> std::sync::mpsc::Sender<T>;

/// What another thread can ask of the runtime.
#[derive(Debug, Clone)]
pub enum RenderCommand {
    Redraw,
    RedrawRegion { repaint: Bounds },
    Resize { width: u32, height: u32 },
    SetMargins(Margins),
    SetAnchor(Anchor),
    CreateSurface { id: SurfaceId, options: LayerOptions },
    DestroySurface { id: SurfaceId },
    RedrawSurface { id: SurfaceId },
    RedrawSurfaceRegion { id: SurfaceId, repaint: Bounds },
    ResizeSurface { id: SurfaceId, width: u32, height: u32 },
    SetSurfaceMargins { id: SurfaceId, margins: Margins },
    SetSurfaceAnchor { id: SurfaceId, anchor: Anchor },
    SetSurfaceLayer { id: SurfaceId, layer: Layer },
    AnimateSurfaceMargins { id: SurfaceId, to: Margins, animation: Animation, destroy_on_complete: bool },
    AnimateSurfaceSize {
        id: SurfaceId,
        width: u32,
        height: u32,
        animation: Animation,
        destroy_on_complete: bool,
    },
    CancelSurfaceAnimation { id: SurfaceId },
    RequestOutputs { reply: std::sync::mpsc::Sender<Vec<RenderOutput>> },
    RequestSurfaceState { id: SurfaceId, reply: std::sync::mpsc::Sender<Option<RenderSurfaceState>> },
    Exit,
}

/// The new value of a widget that changed it.
#[derive(Clone, Debug, PartialEq)]
pub struct ChangeEvent<T> {
    pub value: T,
}

} // verus!
