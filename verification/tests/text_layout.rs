use simple_render::text_layout::{
    run_index_for_metadata, text_horizontal_align_offset, text_line_offset, text_pixel_color,
    TextPixelBounds,
};
use simple_render::{Align, Color, GradientDirection, Paint};

#[test]
fn pixel_bounds_grow_to_take_in_columns() {
    let mut bounds = TextPixelBounds::new(5);
    bounds.extend_to(2);
    bounds.extend_to(9);
    bounds.extend_to(4);
    assert_eq!(bounds, TextPixelBounds { min_x: 2, max_x: 9 });
    assert_eq!(bounds.width(), 8);
    assert_eq!(TextPixelBounds { min_x: i32::MIN, max_x: i32::MAX }.width(), i32::MAX);
}

#[test]
fn horizontal_alignment_of_inked_columns() {
    let bounds = Some(TextPixelBounds { min_x: 2, max_x: 11 });
    assert_eq!(text_horizontal_align_offset(Align::Start, 100, bounds), 0);
    assert_eq!(text_horizontal_align_offset(Align::Center, 100, bounds), 43);
    assert_eq!(text_horizontal_align_offset(Align::End, 100, bounds), 88);
    assert_eq!(text_horizontal_align_offset(Align::Center, 100, None), 0);
    assert_eq!(text_horizontal_align_offset(Align::Center, 5, bounds), -4);
}

#[test]
fn vertical_alignment_of_lines() {
    assert_eq!(text_line_offset(Align::Start, 40, 17), 0);
    assert_eq!(text_line_offset(Align::Center, 40, 17), 11);
    assert_eq!(text_line_offset(Align::End, 40, 17), 23);
    assert_eq!(text_line_offset(Align::Center, 10, 17), -3);
    assert_eq!(text_line_offset(Align::End, u32::MAX, 0), i32::MAX);
}

#[test]
fn glyph_tags_name_runs() {
    assert_eq!(run_index_for_metadata(0, 3), None);
    assert_eq!(run_index_for_metadata(1, 3), Some(0));
    assert_eq!(run_index_for_metadata(3, 3), Some(2));
    assert_eq!(run_index_for_metadata(4, 3), None);
}

#[test]
fn text_pixels_take_the_paint_or_keep_their_own_colour() {
    let paint = Paint::gradient(vec![Color::rgb(10, 20, 30), Color::rgba(200, 100, 50, 128)]);
    let own = text_pixel_color([10, 20, 30, 255], &paint, GradientDirection::Horizontal, 4, 0, 5, 1);
    assert_eq!(own, Color::rgba(200, 100, 50, 128));
    let half = text_pixel_color([10, 20, 30, 100], &paint, GradientDirection::Horizontal, 0, 0, 5, 1);
    assert_eq!(half, Color::rgba(10, 20, 30, 100));
    let emoji = text_pixel_color([1, 2, 3, 4], &paint, GradientDirection::Horizontal, 0, 0, 5, 1);
    assert_eq!(emoji, Color::rgba(1, 2, 3, 4));
}
