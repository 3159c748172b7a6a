//! A small retained-mode UI toolkit for layer-shell surfaces: geometry,
//! layout, paint, a BGRA canvas, input state, animation endpoints and
//! surface placement, with the contracts they keep.
pub mod animation;
pub mod api;
pub mod canvas;
pub mod damage;
pub mod flow;
pub mod geometry;
pub mod image;
pub mod input;
pub mod input_state;
pub mod layout;
pub mod num;
pub mod options;
pub mod paint;
pub mod shapes;
pub mod style;
pub mod surface;
pub mod text_layout;
pub mod text_runs;
pub mod viewport;

pub use animation::{Animation, BoundsTransition, Easing, Edge, Offset};
pub use api::{
    default_surface_id, ChangeEvent, FrameAction, InputAction, PointerAxisSource, PointerButtonState,
    RenderCommand, RenderOutput, RenderSurfaceState, SurfaceId,
};
pub use canvas::{Canvas, DamageRect};
pub use geometry::{Bounds, Clip, CornerRadius, RoundedClip};
pub use image::{Image, ImageFilter, ImageFit, ImagePixels, RgbaImageSource};
pub use input::{
    Key, KeyState, KeyboardEvent, KeyboardEventKind, KeyboardModifiers, KeyboardState, WidgetId,
    WidgetInteraction,
};
pub use input_state::{Hit, InputState, PointerState};
pub use layout::{Align, Direction, Inset, Length, MeasuredSize, Overflow, Position, Spacing};
pub use options::{
    Anchor, KeyboardInteractivity, Layer, LayerOptions, Margins, OutputTarget, Surface,
};
pub use paint::{Color, ColorParseError, GradientDirection, Paint};
pub use style::{Border, BorderWidth};
