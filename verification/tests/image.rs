use simple_render::image::{
    image_pixel, image_placement, image_required_len, interpolate_pixel, map_linear_coordinate,
    map_scaled_coordinate, measure_image, sample_image_linear, sample_image_nearest,
    scaled_dimension, ImagePlacement,
};
use simple_render::layout::Size;
use simple_render::{Align, Bounds, Image, ImageFilter, ImageFit};

fn two_by_two() -> Image {
    Image::new(
        2,
        2,
        vec![1, 1, 1, 1, 2, 2, 2, 2, 3, 3, 3, 3, 4, 4, 4, 4],
    )
}

#[test]
fn image_defaults_and_builders() {
    let image = two_by_two();
    assert_eq!(image.stride, 8);
    assert_eq!(image.fit, ImageFit::Natural);
    assert_eq!(image.filter, ImageFilter::Nearest);
    let image = image.fit(ImageFit::Cover).filter(ImageFilter::Linear).align_center().vertical_align(Align::End).stride(12);
    assert_eq!(image.fit, ImageFit::Cover);
    assert_eq!(image.filter, ImageFilter::Linear);
    assert_eq!(image.align, Align::Center);
    assert_eq!(image.vertical_align, Align::End);
    assert_eq!(image.stride, 12);
    assert_eq!(image.rgba().len(), 16);
    let copied = Image::from_source(1, 1, &vec![9_u8, 8, 7, 6]);
    assert_eq!(copied.rgba(), &[9, 8, 7, 6]);
    assert_eq!(Image::from_source_with_stride(1, 1, 8, &vec![0_u8; 4]).stride, 8);
}

#[test]
fn required_length_and_pixels() {
    let image = two_by_two();
    assert_eq!(image_required_len(&image), Some(16));
    assert_eq!(image_pixel(&image, 1, 1), [4, 4, 4, 4]);
    assert_eq!(image_pixel(&image, 1, 0), [2, 2, 2, 2]);
    assert_eq!(image_required_len(&image.clone().with_stride(4)), None);
    assert_eq!(image_required_len(&Image::new(3, 0, Vec::new())), Some(0));
    assert_eq!(image_required_len(&Image::new(u32::MAX, 1, Vec::new())), None);
}

#[test]
fn measuring_an_image_by_fit() {
    let image = Image::new(4, 2, vec![0; 32]);
    assert_eq!(measure_image(&image, 8, 8), Size::new(4, 2));
    assert_eq!(measure_image(&image.clone().fit(ImageFit::Fill), 8, 8), Size::new(8, 8));
    assert_eq!(measure_image(&image.clone().fit(ImageFit::Contain), 8, 8), Size::new(8, 4));
    assert_eq!(measure_image(&image.clone().fit(ImageFit::Cover), 8, 8), Size::new(8, 8));
    assert_eq!(measure_image(&image, 0, 8), Size::new(0, 0));
}

#[test]
fn placing_an_image_by_fit() {
    let image = Image::new(4, 2, vec![0; 32]).align_center().vertical_align_center();
    let rect = Bounds::new(0, 0, 8, 8);
    let contain = image_placement(&image.clone().fit(ImageFit::Contain), rect);
    assert_eq!(
        contain,
        ImagePlacement { destination: Bounds::new(0, 2, 8, 4), source_x: 0, source_y: 0, source_width: 4, source_height: 2 }
    );
    let cover = image_placement(&image.clone().fit(ImageFit::Cover), rect);
    assert_eq!(
        cover,
        ImagePlacement { destination: rect, source_x: 1, source_y: 0, source_width: 2, source_height: 2 }
    );
    let natural = image_placement(&Image::new(4, 2, vec![0; 32]), Bounds::new(0, 0, 3, 1));
    assert_eq!(
        natural,
        ImagePlacement { destination: Bounds::new(0, 0, 3, 1), source_x: 0, source_y: 0, source_width: 3, source_height: 1 }
    );
}

#[test]
fn coordinate_mapping() {
    assert_eq!(scaled_dimension(2, 8, 4), 4);
    assert_eq!(scaled_dimension(1, 1, 3), 1);
    assert_eq!(scaled_dimension(5, 5, 0), 0);
    assert_eq!(map_scaled_coordinate(5, 10, 4), 2);
    assert_eq!(map_scaled_coordinate(9, 10, 4), 3);
    assert_eq!(map_linear_coordinate(1, 3, 5), (2, 0));
    assert_eq!(map_linear_coordinate(1, 4, 3), (0, 170));
    assert_eq!(map_linear_coordinate(1, 1, 3), (0, 0));
}

#[test]
fn pixel_interpolation_is_premultiplied() {
    assert_eq!(interpolate_pixel([255, 0, 0, 255], [0, 0, 255, 255], 128), [127, 0, 127, 255]);
    assert_eq!(interpolate_pixel([255, 0, 0, 0], [0, 0, 255, 0], 128), [0, 0, 0, 0]);
    assert_eq!(interpolate_pixel([10, 20, 30, 255], [0, 0, 0, 0], 0), [10, 20, 30, 255]);
}

#[test]
fn sampling_a_stretched_image() {
    let image = two_by_two().fit(ImageFit::Fill);
    let placement = image_placement(&image, Bounds::new(0, 0, 4, 4));
    assert_eq!(sample_image_nearest(&image, placement, 3, 3), [4, 4, 4, 4]);
    assert_eq!(sample_image_nearest(&image, placement, 1, 1), [1, 1, 1, 1]);
    assert_eq!(sample_image_linear(&image, placement, 0, 0), [1, 1, 1, 1]);
    assert_eq!(sample_image_linear(&image, placement, 3, 3), [4, 4, 4, 4]);
}

#[test]
fn blending_pixels_keeps_its_ends() {
    let p = [200, 100, 50, 128];
    let q = [10, 20, 30, 255];
    assert_eq!(interpolate_pixel(p, q, 0), p);
    assert_eq!(interpolate_pixel(p, q, 256), q);
    assert_eq!(interpolate_pixel(p, p, 77), p);
    assert_eq!(interpolate_pixel([9, 9, 9, 0], q, 0), [0, 0, 0, 0]);
    for fraction in [0, 1, 64, 128, 200, 255, 256] {
        let alpha = interpolate_pixel(p, q, fraction)[3];
        assert!((128..=255).contains(&alpha));
    }
}

#[test]
fn images_from_a_source_hold_its_bytes() {
    let bytes: Vec<u8> = vec![1, 2, 3, 4, 5, 6, 7, 8];
    let image = Image::from_source(2, 1, &bytes);
    assert_eq!(image.rgba(), &bytes[..]);
    let image = Image::from_source_with_stride(1, 2, 4, &bytes);
    assert_eq!(image.rgba(), &bytes[..]);
    assert_eq!(image.stride, 4);
}
