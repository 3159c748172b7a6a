use simple_render::viewport::{
    scale_i32, target_coord, visible_draw_bounds, visible_world_bounds, PaintOffset,
};
use simple_render::{Bounds, Canvas};

#[test]
fn scale_i32_clamps() {
    assert_eq!(scale_i32(-3, 4), -12);
    assert_eq!(scale_i32(i32::MAX, 2), i32::MAX);
    assert_eq!(scale_i32(i32::MIN, 2), i32::MIN);
    assert_eq!(scale_i32(5, 0), 0);
}

#[test]
fn target_coordinates() {
    assert_eq!(target_coord(10, 4, 8), Some(6));
    assert_eq!(target_coord(10, 2, 8), None);
    assert_eq!(target_coord(1, 4, 8), None);
    assert_eq!(target_coord(0, -3, 8), Some(3));
}

#[test]
fn visible_regions_of_an_offset_canvas() {
    let mut pixels = [0_u8; 64];
    let canvas = Canvas::from_bgra_pixels(&mut pixels, 4, 4, 16, 1).expect("canvas");
    let offset = PaintOffset { x: 2, y: -1 };
    assert_eq!(visible_world_bounds(&canvas, offset), Some(Bounds::new(2, 0, 4, 3)));
    assert_eq!(visible_draw_bounds(&canvas, Bounds::new(0, 0, 3, 10), offset), Some(Bounds::new(2, 0, 1, 3)));
    assert_eq!(visible_world_bounds(&canvas, PaintOffset { x: -10, y: 0 }), None);
    assert_eq!(visible_draw_bounds(&canvas, Bounds::new(9, 9, 1, 1), offset), None);
    assert_eq!(visible_world_bounds(&canvas, PaintOffset::default()), Some(Bounds::new(0, 0, 4, 4)));
}
