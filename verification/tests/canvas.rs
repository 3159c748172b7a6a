use simple_render::{Bounds, Canvas, DamageRect};

#[test]
fn clear_premultiplies_alpha() {
    let mut pixels = [0_u8; 4];
    let mut canvas = Canvas::from_bgra_pixels(&mut pixels, 1, 1, 4, 1).expect("canvas");
    canvas.clear([255, 255, 255, 128]);

    assert_eq!(canvas.pixels(), &[128, 128, 128, 128]);
}

#[test]
fn blend_pixel_stores_premultiplied_color() {
    let mut pixels = [0_u8; 4];
    let mut canvas = Canvas::from_bgra_pixels(&mut pixels, 1, 1, 4, 1).expect("canvas");
    canvas.blend_pixel(0, 0, [255, 255, 255, 128]);

    assert_eq!(canvas.pixels(), &[128, 128, 128, 128]);
}

#[test]
fn blend_pixel_uses_premultiplied_over_operator() {
    let mut pixels = [0_u8; 4];
    let mut canvas = Canvas::from_bgra_pixels(&mut pixels, 1, 1, 4, 1).expect("canvas");
    canvas.put_pixel(0, 0, [0, 0, 255, 128]);
    canvas.blend_pixel(0, 0, [255, 0, 0, 128]);

    assert_eq!(canvas.pixels(), &[64, 0, 128, 192]);
}

#[test]
fn from_bgra_pixels_rejects_a_short_buffer() {
    let mut pixels = [0_u8; 7];
    assert!(Canvas::from_bgra_pixels(&mut pixels, 2, 1, 8, 1).is_none());
}

#[test]
fn from_bgra_pixels_rejects_a_stride_narrower_than_a_row() {
    let mut pixels = [0_u8; 16];
    assert!(Canvas::from_bgra_pixels(&mut pixels, 2, 2, 4, 1).is_none());
}

#[test]
fn from_bgra_pixels_accepts_a_last_row_without_padding() {
    let mut pixels = [0_u8; 12];
    let canvas = Canvas::from_bgra_pixels(&mut pixels, 1, 2, 8, 0).expect("canvas");
    assert_eq!(canvas.scale(), 1);
    assert_eq!(canvas.stride(), 8);
    assert_eq!(canvas.damage(), None);
}

#[test]
fn clear_rect_fills_and_damages_only_the_part_inside() {
    let mut pixels = [0_u8; 16];
    let mut canvas = Canvas::from_bgra_pixels(&mut pixels, 2, 2, 8, 1).expect("canvas");
    canvas.clear_rect(DamageRect::new(1, 1, 5, 5), [255, 0, 0, 255]);
    assert_eq!(canvas.damage(), Some(DamageRect::new(1, 1, 1, 1)));
    assert_eq!(canvas.pixels(), &[0, 0, 0, 0, 0, 0, 0, 0, 0, 0, 0, 0, 0, 0, 255, 255]);
}

#[test]
fn blend_rect_with_a_transparent_colour_changes_nothing() {
    let mut pixels = [7_u8; 8];
    let mut canvas = Canvas::from_bgra_pixels(&mut pixels, 2, 1, 8, 1).expect("canvas");
    canvas.blend_rect(DamageRect::new(0, 0, 2, 1), [10, 20, 30, 0]);
    assert_eq!(canvas.damage(), None);
    assert_eq!(canvas.pixels(), &[7, 7, 7, 7, 7, 7, 7, 7]);
}

#[test]
fn blend_rect_blends_over_each_pixel() {
    let mut pixels = [0_u8; 8];
    let mut canvas = Canvas::from_bgra_pixels(&mut pixels, 2, 1, 8, 1).expect("canvas");
    canvas.clear([0, 0, 255, 255]);
    canvas.blend_rect(DamageRect::new(1, 0, 1, 1), [255, 0, 0, 128]);
    assert_eq!(canvas.pixels(), &[255, 0, 0, 255, 127, 0, 128, 255]);
    assert_eq!(canvas.damage(), Some(DamageRect::new(0, 0, 2, 1)));
}

#[test]
fn pixels_outside_the_canvas_are_ignored() {
    let mut pixels = [0_u8; 4];
    let mut canvas = Canvas::from_bgra_pixels(&mut pixels, 1, 1, 4, 1).expect("canvas");
    canvas.put_pixel(1, 0, [255, 255, 255, 255]);
    canvas.blend_pixel(0, 1, [255, 255, 255, 255]);
    assert_eq!(canvas.damage(), None);
    assert_eq!(canvas.pixels(), &[0, 0, 0, 0]);
}

#[test]
fn damage_grows_to_cover_every_drawn_pixel() {
    let mut pixels = [0_u8; 36];
    let mut canvas = Canvas::from_bgra_pixels(&mut pixels, 3, 3, 12, 1).expect("canvas");
    canvas.put_pixel(0, 0, [1, 2, 3, 255]);
    canvas.put_pixel(2, 1, [1, 2, 3, 255]);
    assert_eq!(canvas.damage(), Some(DamageRect::new(0, 0, 3, 2)));
    canvas.damage_all();
    assert_eq!(canvas.damage(), Some(DamageRect::new(0, 0, 3, 3)));
}

#[test]
fn pixels_mut_marks_the_whole_canvas_damaged() {
    let mut pixels = [0_u8; 8];
    let mut canvas = Canvas::from_bgra_pixels(&mut pixels, 2, 1, 8, 1).expect("canvas");
    canvas.pixels_mut()[0] = 9;
    assert_eq!(canvas.pixels()[0], 9);
    assert_eq!(canvas.damage(), Some(DamageRect::new(0, 0, 2, 1)));
}

#[test]
fn damage_rect_union_and_clamp() {
    let a = DamageRect::new(2, 3, 4, 5);
    let b = DamageRect::new(10, 1, 1, 1);
    assert_eq!(a.union(b), DamageRect::new(2, 1, 9, 7));
    assert_eq!(a.union(b), b.union(a));
    assert_eq!(a.right(), 6);
    assert_eq!(a.bottom(), 8);
    assert_eq!(a.clamp(4, 4), Some(DamageRect::new(2, 3, 2, 1)));
    assert_eq!(a.clamp(2, 10), None);
    assert_eq!(DamageRect::new(u32::MAX - 1, 0, 5, 1).right(), u32::MAX);
}

#[test]
fn damage_rect_from_bounds() {
    let previous = Bounds::new(0, 0, 2, 2);
    let current = Bounds::new(5, 5, 1, 1);
    assert_eq!(DamageRect::from_bounds(current), DamageRect::new(5, 5, 1, 1));
    assert_eq!(DamageRect::from_bounds_pair(previous, current), DamageRect::new(0, 0, 6, 6));
    assert_eq!(DamageRect::new(1, 1, 1, 1).include_bounds(previous), DamageRect::new(0, 0, 2, 2));
}
