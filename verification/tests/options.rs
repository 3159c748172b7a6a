use simple_render::options::{placement, AnchorEdges};
use simple_render::{
    Anchor, KeyboardInteractivity, Layer, LayerOptions, Margins, OutputTarget, Surface,
};

#[test]
fn layer_options_defaults() {
    let options = LayerOptions::new();
    assert_eq!(options.namespace, "simple-render");
    assert_eq!((options.width, options.height), (256, 256));
    assert_eq!(options.output, None);
    assert_eq!(options.layer, Layer::Top);
    assert_eq!(options.anchor, Anchor::Top);
    assert_eq!(options.margins, Margins::default());
    assert_eq!(options.exclusive_zone, 0);
    assert_eq!(options.keyboard_interactivity, KeyboardInteractivity::Off);
}

#[test]
fn layer_options_builders() {
    let options = LayerOptions::new()
        .namespace(String::from("panel"))
        .size(800, 30)
        .layer(Layer::Overlay)
        .anchor(Anchor::BottomFill)
        .output(OutputTarget::Name(String::from("DP-1")))
        .exclusive_zone(30)
        .keyboard_interactivity(KeyboardInteractivity::OnDemand)
        .margin_axis(4, 2)
        .margin_left(9);
    assert_eq!(options.namespace, "panel");
    assert_eq!((options.width, options.height), (800, 30));
    assert_eq!(options.layer, Layer::Overlay);
    assert_eq!(options.anchor, Anchor::BottomFill);
    assert_eq!(options.output, Some(OutputTarget::Name(String::from("DP-1"))));
    assert_eq!(options.exclusive_zone, 30);
    assert_eq!(options.keyboard_interactivity, KeyboardInteractivity::OnDemand);
    assert_eq!(options.margins, Margins { top: 2, right: 4, bottom: 2, left: 9 });
    let options = options.clear_output().width(10).height(11).margin_all(-3).margin_top(1).margin_right(2).margin_bottom(3);
    assert_eq!(options.output, None);
    assert_eq!((options.width, options.height), (10, 11));
    assert_eq!(options.margins, Margins { top: 1, right: 2, bottom: 3, left: -3 });
}

#[test]
fn fullscreen_fills_the_output() {
    let options = LayerOptions::new().size(100, 100).fullscreen();
    assert_eq!((options.width, options.height), (0, 0));
    assert_eq!(options.anchor, Anchor::Fill);
    assert_eq!(options.exclusive_zone, -1);
}

#[test]
fn surfaces_convert_to_layer_options() {
    let surface = Surface::default();
    assert_eq!(surface.namespace, "simple-render");
    let options: LayerOptions = Surface { width: 40, anchor: Anchor::Left, ..Surface::default() }.into();
    assert_eq!(options.width, 40);
    assert_eq!(options.height, 256);
    assert_eq!(options.anchor, Anchor::Left);
}

#[test]
fn anchors_name_their_edges() {
    let edges = |top, bottom, left, right| AnchorEdges { top, bottom, left, right };
    assert_eq!(Anchor::Center.edges(), edges(false, false, false, false));
    assert_eq!(Anchor::TopRight.edges(), edges(true, false, false, true));
    assert_eq!(Anchor::BottomFill.edges(), edges(false, true, true, true));
    assert_eq!(Anchor::Fill.edges().bits(), 15);
    assert_eq!(Anchor::Left.edges().bits(), 4);
    assert_eq!(Anchor::Bottom.edges().bits(), 2);
}

#[test]
fn a_fixed_position_becomes_top_left_margins() {
    let margins = Margins { top: 1, right: 2, bottom: 3, left: 4 };
    let (edges, placed) = placement(Anchor::Position { x: 30, y: 40 }, margins);
    assert_eq!(edges.bits(), 5);
    assert_eq!(placed, Margins { top: 40, right: 0, bottom: 0, left: 30 });
    let (edges, placed) = placement(Anchor::Right, margins);
    assert_eq!(edges.bits(), 8);
    assert_eq!(placed, margins);
}
