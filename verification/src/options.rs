//! How a layer surface asks to be placed: its size, layer, output, anchor,
//! margins, exclusive zone and keyboard interactivity.
use vstd::prelude::*;

verus! {

/// The margins between an anchored surface and the edges it is anchored to.
#[derive(Debug, Clone, Copy, PartialEq, Eq, Structural)]
pub struct Margins {
    pub top: i32,
    pub right: i32,
    pub bottom: i32,
    pub left: i32,
}

impl Margins {
    pub open spec fn spec_zero() -> Self {
        Margins { top: 0, right: 0, bottom: 0, left: 0 }
    }
}

impl Default for Margins {
    fn default() -> (r: Self)
        ensures
            r == Margins::spec_zero(),
    {
        Margins { top: 0, right: 0, bottom: 0, left: 0 }
    }
}

/// The output a surface is shown on.
#[derive(Debug, Clone, PartialEq, Eq)]
pub enum OutputTarget {
    Any,
    Id(u32),
    Name(String),
}

/// The stacking layer of a surface.
#[derive(Debug, Clone, Copy, PartialEq, Eq, Structural)]
pub enum Layer {
    Background,
    Bottom,
    Top,
    Overlay,
}

/// Whether a surface takes keyboard focus: never (`Off`), always, or when
/// the compositor gives it.
#[derive(Debug, Clone, Copy, PartialEq, Eq, Structural)]
pub enum KeyboardInteractivity {
    Off,
    Exclusive,
    OnDemand,
}

/// Where a surface sits on its output.
#[derive(Debug, Clone, Copy, PartialEq, Eq, Structural)]
pub enum Anchor {
    Center,
    Top,
    TopFill,
    TopLeft,
    TopRight,
    Bottom,
    BottomFill,
    BottomLeft,
    BottomRight,
    Left,
    LeftFill,
    Right,
    RightFill,
    Fill,
    Position { x: i32, y: i32 },
}

/// The set of output edges a surface is anchored to.
#[derive(Debug, Clone, Copy, PartialEq, Eq, Structural)]
pub struct AnchorEdges {
    pub top: bool,
    pub bottom: bool,
    pub left: bool,
    pub right: bool,
}

impl AnchorEdges {
    pub open spec fn spec_bits(self) -> int {
        (if self.top { 1int } else { 0 }) + (if self.bottom { 2int } else { 0 }) + (if self.left {
            4int
        } else {
            0
        }) + (if self.right { 8int } else { 0 })
    }

    /// The edges as the layer-shell protocol's bit set: top 1, bottom 2,
    /// left 4, right 8.
    pub fn bits(self) -> (r: u32)
        ensures
            r == self.spec_bits(),
    {
        let mut bits: u32 = 0;
        if self.top {
            bits = bits + 1;
        }
        if self.bottom {
            bits = bits + 2;
        }
        if self.left {
            bits = bits + 4;
        }
        if self.right {
            bits = bits + 8;
        }
        bits
    }
}

pub open spec fn edges(top: bool, bottom: bool, left: bool, right: bool) -> AnchorEdges {
    AnchorEdges { top, bottom, left, right }
}

impl Anchor {
    /// The edges each anchor names; a fill anchor also takes the two edges
    /// across it, and a fixed position sits from the top left corner.
    pub open spec fn spec_edges(self) -> AnchorEdges {
        match self {
            Anchor::Center => edges(false, false, false, false),
            Anchor::Top => edges(true, false, false, false),
            Anchor::TopFill => edges(true, false, true, true),
            Anchor::TopLeft => edges(true, false, true, false),
            Anchor::TopRight => edges(true, false, false, true),
            Anchor::Bottom => edges(false, true, false, false),
            Anchor::BottomFill => edges(false, true, true, true),
            Anchor::BottomLeft => edges(false, true, true, false),
            Anchor::BottomRight => edges(false, true, false, true),
            Anchor::Left => edges(false, false, true, false),
            Anchor::LeftFill => edges(true, true, true, false),
            Anchor::Right => edges(false, false, false, true),
            Anchor::RightFill => edges(true, true, false, true),
            Anchor::Fill => edges(true, true, true, true),
            Anchor::Position { .. } => edges(true, false, true, false),
        }
    }

    pub fn edges(self) -> (r: AnchorEdges)
        ensures
            r == self.spec_edges(),
    {
        match self {
            Anchor::Center => AnchorEdges { top: false, bottom: false, left: false, right: false },
            Anchor::Top => AnchorEdges { top: true, bottom: false, left: false, right: false },
            Anchor::TopFill => AnchorEdges { top: true, bottom: false, left: true, right: true },
            Anchor::TopLeft => AnchorEdges { top: true, bottom: false, left: true, right: false },
            Anchor::TopRight => AnchorEdges { top: true, bottom: false, left: false, right: true },
            Anchor::Bottom => AnchorEdges { top: false, bottom: true, left: false, right: false },
            Anchor::BottomFill => AnchorEdges { top: false, bottom: true, left: true, right: true },
            Anchor::BottomLeft => AnchorEdges { top: false, bottom: true, left: true, right: false },
            Anchor::BottomRight => AnchorEdges { top: false, bottom: true, left: false, right: true },
            Anchor::Left => AnchorEdges { top: false, bottom: false, left: true, right: false },
            Anchor::LeftFill => AnchorEdges { top: true, bottom: true, left: true, right: false },
            Anchor::Right => AnchorEdges { top: false, bottom: false, left: false, right: true },
            Anchor::RightFill => AnchorEdges { top: true, bottom: true, left: false, right: true },
            Anchor::Fill => AnchorEdges { top: true, bottom: true, left: true, right: true },
            Anchor::Position { .. } => AnchorEdges { top: true, bottom: false, left: true, right: false },
        }
    }
}

pub open spec fn spec_placement(anchor: Anchor, margins: Margins) -> (AnchorEdges, Margins) {
    match anchor {
        Anchor::Position { x, y } => (
            edges(true, false, true, false),
            Margins { top: y, right: 0, bottom: 0, left: x },
        ),
        _ => (anchor.spec_edges(), margins),
    }
}

/// The edges and margins a surface is given: a fixed position becomes the
/// top left corner with the position as its top and left margins; any other
/// anchor keeps the margins it was given.
pub fn placement(anchor: Anchor, margins: Margins) -> (r: (AnchorEdges, Margins))
    ensures
        r == spec_placement(anchor, margins),
{
    match anchor {
        Anchor::Position { x, y } => (
            AnchorEdges { top: true, bottom: false, left: true, right: false },
            Margins { top: y, right: 0, bottom: 0, left: x },
        ),
        _ => (anchor.edges(), margins),
    }
}

/// How a layer surface is placed and sized.
#[derive(Debug, Clone)]
pub struct LayerOptions {
    pub namespace: String,
    pub width: u32,
    pub height: u32,
    pub output: Option<OutputTarget>,
    pub layer: Layer,
    pub anchor: Anchor,
    pub margins: Margins,
    pub exclusive_zone: i32,
    pub keyboard_interactivity: KeyboardInteractivity,
}

impl Default for LayerOptions {
    fn default() -> (r: Self)
        ensures
            r.namespace@ == "simple-render"@,
            r.width == 256,
            r.height == 256,
            r.output is None,
            r.layer == Layer::Top,
            r.anchor == Anchor::Top,
            r.margins == Margins::spec_zero(),
            r.exclusive_zone == 0,
            r.keyboard_interactivity == KeyboardInteractivity::Off,
    {
        LayerOptions {
            namespace: "simple-render".to_owned(),
            width: 256,
            height: 256,
            output: None,
            layer: Layer::Top,
            anchor: Anchor::Top,
            margins: Margins::default(),
            exclusive_zone: 0,
            keyboard_interactivity: KeyboardInteractivity::Off,
        }
    }
}

impl LayerOptions {
    /// A 256 by 256 surface on the top layer, anchored to the top edge, in
    /// the namespace `simple-render`.
    pub fn new() -> (r: Self)
        ensures
            r.namespace@ == "simple-render"@,
            r.width == 256,
            r.height == 256,
            r.output is None,
            r.layer == Layer::Top,
            r.anchor == Anchor::Top,
            r.margins == Margins::spec_zero(),
            r.exclusive_zone == 0,
            r.keyboard_interactivity == KeyboardInteractivity::Off,
    {
        LayerOptions::default()
    }

    pub fn namespace(self, value: String) -> (r: Self)
        ensures
            r == (LayerOptions { namespace: value, ..self }),
    {
        LayerOptions { namespace: value, ..self }
    }

    pub fn width(self, value: u32) -> (r: Self)
        ensures
            r == (LayerOptions { width: value, ..self }),
    {
        LayerOptions { width: value, ..self }
    }

    pub fn height(self, value: u32) -> (r: Self)
        ensures
            r == (LayerOptions { height: value, ..self }),
    {
        LayerOptions { height: value, ..self }
    }

    pub fn size(self, width: u32, height: u32) -> (r: Self)
        ensures
            r == (LayerOptions { width, height, ..self }),
    {
        LayerOptions { width, height, ..self }
    }

    /// Covers the whole output: no fixed size, anchored to all four edges,
    /// and ignoring the exclusive zones of other surfaces.
    pub fn fullscreen(self) -> (r: Self)
        ensures
            r == (LayerOptions { width: 0, height: 0, anchor: Anchor::Fill, exclusive_zone: -1i32, ..self }),
    {
        LayerOptions { width: 0, height: 0, anchor: Anchor::Fill, exclusive_zone: -1, ..self }
    }

    pub fn output(self, value: OutputTarget) -> (r: Self)
        ensures
            r == (LayerOptions { output: Some(value), ..self }),
    {
        LayerOptions { output: Some(value), ..self }
    }

    pub fn clear_output(self) -> (r: Self)
        ensures
            r == (LayerOptions { output: None, ..self }),
    {
        LayerOptions { output: None, ..self }
    }

    pub fn layer(self, value: Layer) -> (r: Self)
        ensures
            r == (LayerOptions { layer: value, ..self }),
    {
        LayerOptions { layer: value, ..self }
    }

    pub fn anchor(self, value: Anchor) -> (r: Self)
        ensures
            r == (LayerOptions { anchor: value, ..self }),
    {
        LayerOptions { anchor: value, ..self }
    }

    pub fn margin_all(self, value: i32) -> (r: Self)
        ensures
            r == (LayerOptions { margins: Margins { top: value, right: value, bottom: value, left: value }, ..self }),
    {
        LayerOptions { margins: Margins { top: value, right: value, bottom: value, left: value }, ..self }
    }

    pub fn margin_axis(self, horizontal: i32, vertical: i32) -> (r: Self)
        ensures
            r == (LayerOptions {
                margins: Margins { top: vertical, right: horizontal, bottom: vertical, left: horizontal },
                ..self
            }),
    {
        LayerOptions {
            margins: Margins { top: vertical, right: horizontal, bottom: vertical, left: horizontal },
            ..self
        }
    }

    pub fn margin_top(self, value: i32) -> (r: Self)
        ensures
            r == (LayerOptions { margins: Margins { top: value, ..self.margins }, ..self }),
    {
        let margins = Margins { top: value, ..self.margins };
        LayerOptions { margins, ..self }
    }

    pub fn margin_right(self, value: i32) -> (r: Self)
        ensures
            r == (LayerOptions { margins: Margins { right: value, ..self.margins }, ..self }),
    {
        let margins = Margins { right: value, ..self.margins };
        LayerOptions { margins, ..self }
    }

    pub fn margin_bottom(self, value: i32) -> (r: Self)
        ensures
            r == (LayerOptions { margins: Margins { bottom: value, ..self.margins }, ..self }),
    {
        let margins = Margins { bottom: value, ..self.margins };
        LayerOptions { margins, ..self }
    }

    pub fn margin_left(self, value: i32) -> (r: Self)
        ensures
            r == (LayerOptions { margins: Margins { left: value, ..self.margins }, ..self }),
    {
        let margins = Margins { left: value, ..self.margins };
        LayerOptions { margins, ..self }
    }

    pub fn exclusive_zone(self, value: i32) -> (r: Self)
        ensures
            r == (LayerOptions { exclusive_zone: value, ..self }),
    {
        LayerOptions { exclusive_zone: value, ..self }
    }

    pub fn keyboard_interactivity(self, value: KeyboardInteractivity) -> (r: Self)
        ensures
            r == (LayerOptions { keyboard_interactivity: value, ..self }),
    {
        LayerOptions { keyboard_interactivity: value, ..self }
    }
}

/// The layer surface an element asks to be shown on; the same settings as
/// `LayerOptions`.
#[derive(Debug, Clone, PartialEq, Eq)]
pub struct Surface {
    pub namespace: String,
    pub width: u32,
    pub height: u32,
    pub output: Option<OutputTarget>,
    pub layer: Layer,
    pub anchor: Anchor,
    pub margins: Margins,
    pub exclusive_zone: i32,
    pub keyboard_interactivity: KeyboardInteractivity,
}

impl Default for Surface {
    fn default() -> (r: Self)
        ensures
            r.namespace@ == "simple-render"@,
            r.width == 256,
            r.height == 256,
            r.output is None,
            r.layer == Layer::Top,
            r.anchor == Anchor::Top,
            r.margins == Margins::spec_zero(),
            r.exclusive_zone == 0,
            r.keyboard_interactivity == KeyboardInteractivity::Off,
    {
        let options = LayerOptions::default();
        Surface {
            namespace: options.namespace,
            width: options.width,
            height: options.height,
            output: options.output,
            layer: options.layer,
            anchor: options.anchor,
            margins: options.margins,
            exclusive_zone: options.exclusive_zone,
            keyboard_interactivity: options.keyboard_interactivity,
        }
    }
}

impl From<Surface> for LayerOptions {
    fn from(surface: Surface) -> (r: Self) {
        LayerOptions {
            namespace: surface.namespace,
            width: surface.width,
            height: surface.height,
            output: surface.output,
            layer: surface.layer,
            anchor: surface.anchor,
            margins: surface.margins,
            exclusive_zone: surface.exclusive_zone,
            keyboard_interactivity: surface.keyboard_interactivity,
        }
    }
}

impl vstd::std_specs::convert::FromSpecImpl<Surface> for LayerOptions {
    open spec fn obeys_from_spec() -> bool {
        true
    }

    open spec fn from_spec(surface: Surface) -> Self {
        LayerOptions {
            namespace: surface.namespace,
            width: surface.width,
            height: surface.height,
            output: surface.output,
            layer: surface.layer,
            anchor: surface.anchor,
            margins: surface.margins,
            exclusive_zone: surface.exclusive_zone,
            keyboard_interactivity: surface.keyboard_interactivity,
        }
    }
}

/// A fixed position puts the surface's top left corner at that position,
/// whatever margins were given.
pub proof fn lemma_position_places_top_left(x: i32, y: i32, margins: Margins)
    ensures
        spec_placement(Anchor::Position { x, y }, margins).0.spec_bits() == 5,
        spec_placement(Anchor::Position { x, y }, margins).1 == (Margins { top: y, right: 0, bottom: 0, left: x }),
{
}

} // verus!
