//! RGBA images: how they fit a box, and how their pixels are sampled.
use vstd::prelude::*;
use crate::geometry::Bounds;
use crate::layout::{align_offset, spec_align_offset, Align, Size};
use crate::num::{max_int, min_int, sat_add, sat_sub, min_u32, sat_add_u32};

verus! {

/// How an image is fitted to the box it is drawn in.
#[derive(Clone, Copy, Debug, PartialEq, Eq, Structural)]
pub enum ImageFit {
    /// At its natural size, cropped to the box.
    Natural,
    /// Stretched to the box.
    Fill,
    /// Scaled to fit inside the box, keeping its aspect ratio.
    Contain,
    /// Scaled to cover the box, keeping its aspect ratio, and cropped.
    Cover,
}

impl Default for ImageFit {
    fn default() -> (r: Self)
        ensures
            r == ImageFit::Natural,
    {
        ImageFit::Natural
    }
}

/// How an image is sampled when scaled.
#[derive(Clone, Copy, Debug, PartialEq, Eq, Structural)]
pub enum ImageFilter {
    Nearest,
    Linear,
}

impl Default for ImageFilter {
    fn default() -> (r: Self)
        ensures
            r == ImageFilter::Nearest,
    {
        ImageFilter::Nearest
    }
}

/// Something that holds RGBA bytes an image can be made from.
pub trait RgbaImageSource {
    /// The bytes the source holds.
    spec fn spec_rgba(&self) -> Seq<u8>;

    fn rgba(&self) -> (r: &[u8])
        ensures
            r@ == self.spec_rgba(),
    ;
}

impl RgbaImageSource for Vec<u8> {
    open spec fn spec_rgba(&self) -> Seq<u8> {
        self@
    }

    fn rgba(&self) -> (r: &[u8])
        ensures
            r@ == self@,
    {
        self.as_slice()
    }
}

/// The bytes of an image, four per pixel (red, green, blue, alpha).
#[derive(Clone, Debug, PartialEq, Eq)]
pub enum ImagePixels {
    Owned(Vec<u8>),
}

impl ImagePixels {
    pub open spec fn spec_bytes(&self) -> Seq<u8> {
        match self {
            ImagePixels::Owned(bytes) => bytes@,
        }
    }

    pub fn as_rgba(&self) -> (r: &[u8])
        ensures
            r@ == self.spec_bytes(),
    {
        match self {
            ImagePixels::Owned(bytes) => bytes.as_slice(),
        }
    }
}

/// An RGBA image: `stride` bytes per row, placed in its box by `fit`,
/// `align` (across) and `vertical_align` (down).
#[derive(Clone, Debug, PartialEq, Eq)]
pub struct Image {
    pub width: u32,
    pub height: u32,
    pub rgba: ImagePixels,
    pub stride: u32,
    pub fit: ImageFit,
    pub filter: ImageFilter,
    pub align: Align,
    pub vertical_align: Align,
}

/// Copies the bytes of a source.
fn copy_bytes(bytes: &[u8]) -> (r: Vec<u8>)
    ensures
        r@ == bytes@,
{
    let mut out: Vec<u8> = Vec::new();
    let mut i: usize = 0;
    while i < bytes.len()
        invariant
            0 <= i <= bytes.len(),
            out@ == bytes@.take(i as int),
        decreases bytes.len() - i,
    {
        out.push(bytes[i]);
        i = i + 1;
        assert(out@ =~= bytes@.take(i as int));
    }
    assert(bytes@.take(bytes.len() as int) =~= bytes@);
    out
}

impl Image {
    /// A `width` by `height` image of tightly packed rows, at its natural size,
    /// sampled `Nearest`, at the top left of its box.
    pub fn new(width: u32, height: u32, rgba: Vec<u8>) -> (r: Self)
        ensures
            r.width == width,
            r.height == height,
            r.rgba.spec_bytes() == rgba@,
            r.stride == if width * 4 > u32::MAX { u32::MAX as int } else { width * 4 },
            r.fit == ImageFit::Natural,
            r.filter == ImageFilter::Nearest,
            r.align == Align::Start,
            r.vertical_align == Align::Start,
    {
        Image {
            width,
            height,
            rgba: ImagePixels::Owned(rgba),
            stride: crate::num::sat_mul_u32(width, 4),
            fit: ImageFit::Natural,
            filter: ImageFilter::Nearest,
            align: Align::Start,
            vertical_align: Align::Start,
        }
    }

    /// An image with the bytes of `source`.
    pub fn from_source<S: RgbaImageSource>(width: u32, height: u32, source: &S) -> (r: Self)
        ensures
            r.rgba.spec_bytes() == source.spec_rgba(),
            r.width == width,
            r.height == height,
            r.stride == if width * 4 > u32::MAX { u32::MAX as int } else { width * 4 },
            r.fit == ImageFit::Natural,
            r.filter == ImageFilter::Nearest,
            r.align == Align::Start,
            r.vertical_align == Align::Start,
    {
        Self::new(width, height, copy_bytes(source.rgba()))
    }

    pub fn from_source_with_stride<S: RgbaImageSource>(width: u32, height: u32, stride: u32, source: &S) -> (r: Self)
        ensures
            r.rgba.spec_bytes() == source.spec_rgba(),
            r.width == width,
            r.height == height,
            r.stride == stride,
            r.fit == ImageFit::Natural,
            r.filter == ImageFilter::Nearest,
            r.align == Align::Start,
            r.vertical_align == Align::Start,
    {
        Self::from_source(width, height, source).with_stride(stride)
    }

    pub open spec fn spec_with(self, stride: u32, fit: ImageFit, filter: ImageFilter, align: Align, vertical_align: Align) -> Self {
        Image { stride, fit, filter, align, vertical_align, ..self }
    }

    pub fn with_stride(self, stride: u32) -> (r: Self)
        ensures
            r == self.spec_with(stride, self.fit, self.filter, self.align, self.vertical_align),
    {
        Image { stride, ..self }
    }

    pub fn stride(self, stride: u32) -> (r: Self)
        ensures
            r == self.spec_with(stride, self.fit, self.filter, self.align, self.vertical_align),
    {
        self.with_stride(stride)
    }

    pub fn fit(self, fit: ImageFit) -> (r: Self)
        ensures
            r == self.spec_with(self.stride, fit, self.filter, self.align, self.vertical_align),
    {
        Image { fit, ..self }
    }

    pub fn filter(self, filter: ImageFilter) -> (r: Self)
        ensures
            r == self.spec_with(self.stride, self.fit, filter, self.align, self.vertical_align),
    {
        Image { filter, ..self }
    }

    pub fn align(self, align: Align) -> (r: Self)
        ensures
            r == self.spec_with(self.stride, self.fit, self.filter, align, self.vertical_align),
    {
        Image { align, ..self }
    }

    pub fn align_center(self) -> (r: Self)
        ensures
            r == self.spec_with(self.stride, self.fit, self.filter, Align::Center, self.vertical_align),
    {
        self.align(Align::Center)
    }

    pub fn vertical_align(self, align: Align) -> (r: Self)
        ensures
            r == self.spec_with(self.stride, self.fit, self.filter, self.align, align),
    {
        Image { vertical_align: align, ..self }
    }

    pub fn vertical_align_center(self) -> (r: Self)
        ensures
            r == self.spec_with(self.stride, self.fit, self.filter, self.align, Align::Center),
    {
        self.vertical_align(Align::Center)
    }

    pub fn rgba(&self) -> (r: &[u8])
        ensures
            r@ == self.rgba.spec_bytes(),
    {
        self.rgba.as_rgba()
    }

    /// The bytes the image needs: every row but the last in full, and the
    /// pixels of the last; `None` when a row does not fit in the stride or
    /// the size overflows `u32`.
    pub open spec fn spec_required_len(&self) -> Option<int> {
        if self.width * 4 > u32::MAX || self.stride < self.width * 4 {
            None
        } else if self.height == 0 {
            Some(0)
        } else if self.stride * (self.height - 1) > u32::MAX || self.stride * (self.height - 1) + self.width * 4 > u32::MAX {
            None
        } else {
            Some(self.stride * (self.height - 1) + self.width * 4)
        }
    }

    /// Whether every pixel of the image has its four bytes.
    pub open spec fn spec_pixels_ready(&self) -> bool {
        match self.spec_required_len() {
            Some(required) => required <= self.rgba.spec_bytes().len(),
            None => false,
        }
    }

    /// The bytes of pixel `(x, y)`.
    pub open spec fn spec_pixel(&self, x: int, y: int) -> Seq<u8> {
        let start = y * self.stride + x * 4;
        self.rgba.spec_bytes().subrange(start, start + 4)
    }
}

pub fn image_required_len(image: &Image) -> (r: Option<usize>)
    ensures
        match image.spec_required_len() {
            Some(n) => r == Some(n as usize),
            None => r is None,
        },
{
    let packed_row = match image.width.checked_mul(4) {
        Some(v) => v,
        None => return None,
    };
    if image.stride < packed_row {
        return None;
    }
    if image.height == 0 {
        return Some(0);
    }
    let full = match image.stride.checked_mul(image.height - 1) {
        Some(v) => v,
        None => return None,
    };
    match full.checked_add(packed_row) {
        Some(v) => Some(v as usize),
        None => None,
    }
}

/// The bytes of pixel `(x, y)` of an image whose pixels are all present.
pub fn image_pixel(image: &Image, x: u32, y: u32) -> (r: [u8; 4])
    requires
        image.spec_pixels_ready(),
        x < image.width,
        y < image.height,
    ensures
        r@ == image.spec_pixel(x as int, y as int),
{
    proof {
        assert(y * image.stride + x * 4 + 4 <= image.stride * (image.height - 1) + image.width * 4) by (nonlinear_arith)
            requires
                x < image.width,
                y < image.height,
                image.stride >= image.width * 4,
        ;
    }
    let index = (y * image.stride + x * 4) as usize;
    let pixels = image.rgba();
    let r = [pixels[index], pixels[index + 1], pixels[index + 2], pixels[index + 3]];
    assert(r@ =~= image.spec_pixel(x as int, y as int));
    r
}

/// `value * numerator / denominator` rounded down, at least one, and at most
/// `u32::MAX`; zero when the denominator is zero.
pub open spec fn spec_scaled_dimension(value: int, numerator: int, denominator: int) -> int {
    if denominator == 0 {
        0
    } else {
        min_int(if value * numerator / denominator >= 1 { value * numerator / denominator } else { 1 }, u32::MAX as int)
    }
}

pub fn scaled_dimension(value: u32, numerator: u32, denominator: u32) -> (r: u32)
    ensures
        r == spec_scaled_dimension(value as int, numerator as int, denominator as int),
{
    if denominator == 0 {
        return 0;
    }
    proof {
        assert(value as int * numerator as int <= 0xffff_ffff * 0xffff_ffff) by (nonlinear_arith)
            requires
                value <= 0xffff_ffff,
                numerator <= 0xffff_ffff,
        ;
        assert(value as int * numerator as int >= 0) by (nonlinear_arith);
    }
    let scaled = value as u64 * numerator as u64 / denominator as u64;
    let at_least_one = if scaled >= 1 { scaled } else { 1 };
    if at_least_one <= u32::MAX as u64 {
        at_least_one as u32
    } else {
        u32::MAX
    }
}

/// The size an image asks for inside an `available_width` by
/// `available_height` box.
pub open spec fn spec_measure_image(image: &Image, available_width: int, available_height: int) -> Size {
    if image.width == 0 || image.height == 0 || available_width == 0 || available_height == 0 {
        Size { width: 0, height: 0 }
    } else {
        match image.fit {
            ImageFit::Natural => Size {
                width: min_int(image.width as int, available_width) as u32,
                height: min_int(image.height as int, available_height) as u32,
            },
            ImageFit::Fill => Size { width: available_width as u32, height: available_height as u32 },
            _ => {
                let by_width = available_width * image.height;
                let by_height = available_height * image.width;
                let use_width = if image.fit == ImageFit::Contain { by_width <= by_height } else { by_width >= by_height };
                let (width, height) = if use_width {
                    (available_width, spec_scaled_dimension(image.height as int, available_width, image.width as int))
                } else {
                    (spec_scaled_dimension(image.width as int, available_height, image.height as int), available_height)
                };
                Size { width: min_int(width, available_width) as u32, height: min_int(height, available_height) as u32 }
            },
        }
    }
}

pub fn measure_image(image: &Image, available_width: u32, available_height: u32) -> (r: Size)
    ensures
        r == spec_measure_image(image, available_width as int, available_height as int),
{
    if image.width == 0 || image.height == 0 || available_width == 0 || available_height == 0 {
        return Size::new(0, 0);
    }
    match image.fit {
        ImageFit::Natural => Size::new(min_u32(image.width, available_width), min_u32(image.height, available_height)),
        ImageFit::Fill => Size::new(available_width, available_height),
        ImageFit::Contain | ImageFit::Cover => {
            proof {
                assert(available_width as int * image.height as int <= 0xffff_ffff * 0xffff_ffff) by (nonlinear_arith)
                    requires
                        available_width <= 0xffff_ffff,
                        image.height <= 0xffff_ffff,
                ;
                assert(available_height as int * image.width as int <= 0xffff_ffff * 0xffff_ffff) by (nonlinear_arith)
                    requires
                        available_height <= 0xffff_ffff,
                        image.width <= 0xffff_ffff,
                ;
                assert(available_width as int * image.height as int >= 0) by (nonlinear_arith);
                assert(available_height as int * image.width as int >= 0) by (nonlinear_arith);
            }
            let scale_by_width = available_width as u64 * image.height as u64;
            let scale_by_height = available_height as u64 * image.width as u64;
            let use_width = match image.fit {
                ImageFit::Contain => scale_by_width <= scale_by_height,
                _ => scale_by_width >= scale_by_height,
            };
            let (width, height) = if use_width {
                (available_width, scaled_dimension(image.height, available_width, image.width))
            } else {
                (scaled_dimension(image.width, available_height, image.height), available_height)
            };
            Size::new(min_u32(width, available_width), min_u32(height, available_height))
        },
    }
}

/// Where an image goes in its box, and which part of it is shown.
#[derive(Clone, Copy, Debug, PartialEq, Eq, Structural)]
pub struct ImagePlacement {
    pub destination: Bounds,
    pub source_x: u32,
    pub source_y: u32,
    pub source_width: u32,
    pub source_height: u32,
}

impl ImagePlacement {
    /// The shown part of the image lies inside it and is not empty.
    pub open spec fn spec_valid_for(self, image: &Image) -> bool {
        &&& self.source_width >= 1
        &&& self.source_height >= 1
        &&& self.source_x + self.source_width <= image.width
        &&& self.source_y + self.source_height <= image.height
    }
}

/// `size` placed in `rect` by `align` and `vertical_align`, cropped to `rect`.
pub open spec fn spec_align_rect(rect: Bounds, size: Size, align: Align, vertical_align: Align) -> Bounds {
    Bounds {
        x: sat_add(rect.x as int, spec_align_offset(align, rect.width as int, size.width as int)) as u32,
        y: sat_add(rect.y as int, spec_align_offset(vertical_align, rect.height as int, size.height as int)) as u32,
        width: min_int(size.width as int, rect.width as int) as u32,
        height: min_int(size.height as int, rect.height as int) as u32,
    }
}

fn align_rect(rect: Bounds, size: Size, align: Align, vertical_align: Align) -> (r: Bounds)
    ensures
        r == spec_align_rect(rect, size, align, vertical_align),
{
    Bounds {
        x: sat_add_u32(rect.x, align_offset(align, rect.width, size.width)),
        y: sat_add_u32(rect.y, align_offset(vertical_align, rect.height, size.height)),
        width: min_u32(size.width, rect.width),
        height: min_u32(size.height, rect.height),
    }
}

/// The largest size with the aspect ratio of the source that fits in
/// `width` by `height`.
pub open spec fn spec_contain_size(source_width: int, source_height: int, width: int, height: int) -> Size {
    if source_width == 0 || source_height == 0 || width == 0 || height == 0 {
        Size { width: 0, height: 0 }
    } else if width * source_height <= height * source_width {
        Size { width: width as u32, height: min_int(spec_scaled_dimension(source_height, width, source_width), height) as u32 }
    } else {
        Size { width: min_int(spec_scaled_dimension(source_width, height, source_height), width) as u32, height: height as u32 }
    }
}

fn contain_size(source_width: u32, source_height: u32, width: u32, height: u32) -> (r: Size)
    ensures
        r == spec_contain_size(source_width as int, source_height as int, width as int, height as int),
{
    if source_width == 0 || source_height == 0 || width == 0 || height == 0 {
        return Size::new(0, 0);
    }
    proof {
        assert(width as int * source_height as int <= 0xffff_ffff * 0xffff_ffff) by (nonlinear_arith)
            requires
                width <= 0xffff_ffff,
                source_height <= 0xffff_ffff,
        ;
        assert(height as int * source_width as int <= 0xffff_ffff * 0xffff_ffff) by (nonlinear_arith)
            requires
                height <= 0xffff_ffff,
                source_width <= 0xffff_ffff,
        ;
        assert(width as int * source_height as int >= 0) by (nonlinear_arith);
        assert(height as int * source_width as int >= 0) by (nonlinear_arith);
    }
    if width as u64 * source_height as u64 <= height as u64 * source_width as u64 {
        Size::new(width, min_u32(scaled_dimension(source_height, width, source_width), height))
    } else {
        Size::new(min_u32(scaled_dimension(source_width, height, source_height), width), height)
    }
}

/// The centred part of the source with the aspect ratio of `width` by
/// `height`, as large as the source allows.
pub open spec fn spec_cover_source_rect(source_width: int, source_height: int, width: int, height: int) -> Bounds {
    if source_width == 0 || source_height == 0 || width == 0 || height == 0 {
        Bounds { x: 0, y: 0, width: 0, height: 0 }
    } else if width * source_height >= height * source_width {
        let crop_height = min_int(spec_scaled_dimension(source_width, height, width), source_height);
        Bounds { x: 0, y: (sat_sub(source_height, crop_height) / 2) as u32, width: source_width as u32, height: crop_height as u32 }
    } else {
        let crop_width = min_int(spec_scaled_dimension(source_height, width, height), source_width);
        Bounds { x: (sat_sub(source_width, crop_width) / 2) as u32, y: 0, width: crop_width as u32, height: source_height as u32 }
    }
}

fn centered_crop_offset(crop: u32, source: u32) -> (r: u32)
    ensures
        r == sat_sub(source as int, crop as int) / 2,
{
    source.saturating_sub(crop) / 2
}

fn cover_source_rect(source_width: u32, source_height: u32, width: u32, height: u32) -> (r: Bounds)
    ensures
        r == spec_cover_source_rect(source_width as int, source_height as int, width as int, height as int),
{
    if source_width == 0 || source_height == 0 || width == 0 || height == 0 {
        return Bounds::new(0, 0, 0, 0);
    }
    proof {
        assert(width as int * source_height as int <= 0xffff_ffff * 0xffff_ffff) by (nonlinear_arith)
            requires
                width <= 0xffff_ffff,
                source_height <= 0xffff_ffff,
        ;
        assert(height as int * source_width as int <= 0xffff_ffff * 0xffff_ffff) by (nonlinear_arith)
            requires
                height <= 0xffff_ffff,
                source_width <= 0xffff_ffff,
        ;
        assert(width as int * source_height as int >= 0) by (nonlinear_arith);
        assert(height as int * source_width as int >= 0) by (nonlinear_arith);
    }
    if width as u64 * source_height as u64 >= height as u64 * source_width as u64 {
        let crop_height = min_u32(scaled_dimension(source_width, height, width), source_height);
        Bounds::new(0, centered_crop_offset(crop_height, source_height), source_width, crop_height)
    } else {
        let crop_width = min_u32(scaled_dimension(source_height, width, height), source_width);
        Bounds::new(centered_crop_offset(crop_width, source_width), 0, crop_width, source_height)
    }
}

/// Where an image is drawn in `rect` and which part of it shows there.
pub open spec fn spec_image_placement(image: &Image, rect: Bounds) -> ImagePlacement {
    match image.fit {
        ImageFit::Natural => {
            let width = min_int(rect.width as int, image.width as int);
            let height = min_int(rect.height as int, image.height as int);
            ImagePlacement {
                destination: spec_align_rect(rect, Size { width: width as u32, height: height as u32 }, image.align, image.vertical_align),
                source_x: 0,
                source_y: 0,
                source_width: width as u32,
                source_height: height as u32,
            }
        },
        ImageFit::Fill => ImagePlacement {
            destination: rect,
            source_x: 0,
            source_y: 0,
            source_width: image.width,
            source_height: image.height,
        },
        ImageFit::Contain => ImagePlacement {
            destination: spec_align_rect(
                rect,
                spec_contain_size(image.width as int, image.height as int, rect.width as int, rect.height as int),
                image.align,
                image.vertical_align,
            ),
            source_x: 0,
            source_y: 0,
            source_width: image.width,
            source_height: image.height,
        },
        ImageFit::Cover => {
            let source = spec_cover_source_rect(image.width as int, image.height as int, rect.width as int, rect.height as int);
            ImagePlacement {
                destination: rect,
                source_x: source.x,
                source_y: source.y,
                source_width: source.width,
                source_height: source.height,
            }
        },
    }
}

pub fn image_placement(image: &Image, rect: Bounds) -> (r: ImagePlacement)
    ensures
        r == spec_image_placement(image, rect),
{
    match image.fit {
        ImageFit::Natural => {
            let width = min_u32(rect.width, image.width);
            let height = min_u32(rect.height, image.height);
            ImagePlacement {
                destination: align_rect(rect, Size::new(width, height), image.align, image.vertical_align),
                source_x: 0,
                source_y: 0,
                source_width: width,
                source_height: height,
            }
        },
        ImageFit::Fill => ImagePlacement {
            destination: rect,
            source_x: 0,
            source_y: 0,
            source_width: image.width,
            source_height: image.height,
        },
        ImageFit::Contain => {
            let size = contain_size(image.width, image.height, rect.width, rect.height);
            ImagePlacement {
                destination: align_rect(rect, size, image.align, image.vertical_align),
                source_x: 0,
                source_y: 0,
                source_width: image.width,
                source_height: image.height,
            }
        },
        ImageFit::Cover => {
            let source = cover_source_rect(image.width, image.height, rect.width, rect.height);
            ImagePlacement {
                destination: rect,
                source_x: source.x,
                source_y: source.y,
                source_width: source.width,
                source_height: source.height,
            }
        },
    }
}

/// `value * numerator / denominator`, scaled to a length of at least one,
/// is within one `denominator` of the exact product when it stays within `limit`.
proof fn lemma_scaled_dimension_close(value: int, numerator: int, denominator: int, limit: int)
    requires
        value >= 1,
        numerator >= 1,
        denominator >= 1,
        1 <= limit <= u32::MAX,
        numerator * value <= limit * denominator,
    ensures
        1 <= spec_scaled_dimension(value, numerator, denominator) <= limit,
        spec_scaled_dimension(value, numerator, denominator) * denominator - numerator * value < denominator,
        numerator * value - spec_scaled_dimension(value, numerator, denominator) * denominator < denominator,
{
    let q = value * numerator / denominator;
    assert(q * denominator <= value * numerator < q * denominator + denominator) by (nonlinear_arith)
        requires
            q == value * numerator / denominator,
            denominator >= 1,
    ;
    assert(q <= limit) by (nonlinear_arith)
        requires
            q * denominator <= value * numerator,
            numerator * value <= limit * denominator,
            denominator >= 1,
    ;
    assert(q >= 0) by (nonlinear_arith)
        requires
            q == value * numerator / denominator,
            denominator >= 1,
            value >= 1,
            numerator >= 1,
    ;
    assert(numerator * value == value * numerator) by (nonlinear_arith);
    assert(numerator * value >= 1) by (nonlinear_arith)
        requires
            value >= 1,
            numerator >= 1,
    ;
    let r = spec_scaled_dimension(value, numerator, denominator);
    if q >= 1 {
        assert(r == q);
    } else {
        assert(r == 1);
        assert(q * denominator == 0) by (nonlinear_arith)
            requires
                q == 0,
        ;
    }
}

/// Contain keeps the aspect ratio of the image: the drawn size fits in the
/// box, fills it along one side, and its width to height ratio differs from
/// the image's by less than one pixel of the image (`width * source_height`
/// and `height * source_width` are less than a source dimension apart).
pub proof fn lemma_contain_keeps_aspect_ratio(image: &Image, rect: Bounds)
    requires
        image.fit == ImageFit::Contain,
        image.width > 0,
        image.height > 0,
        rect.width > 0,
        rect.height > 0,
    ensures
        ({
            let d = spec_image_placement(image, rect).destination;
            let (sw, sh) = (image.width as int, image.height as int);
            let (dw, dh) = (d.width as int, d.height as int);
            &&& 1 <= dw <= rect.width
            &&& 1 <= dh <= rect.height
            &&& (dw == rect.width && dh * sw - dw * sh < sw && dw * sh - dh * sw < sw)
                || (dh == rect.height && dw * sh - dh * sw < sh && dh * sw - dw * sh < sh)
        }),
{
    let (sw, sh, w, h) = (image.width as int, image.height as int, rect.width as int, rect.height as int);
    if w * sh <= h * sw {
        lemma_scaled_dimension_close(sh, w, sw, h);
    } else {
        lemma_scaled_dimension_close(sw, h, sh, w);
    }
}

/// A placed image shows only pixels that the image has: for a non-empty
/// image and box, the shown part is non-empty and inside the image.
pub proof fn lemma_image_placement_reads_inside_image(image: &Image, rect: Bounds)
    requires
        image.width > 0,
        image.height > 0,
        rect.width > 0,
        rect.height > 0,
    ensures
        spec_image_placement(image, rect).spec_valid_for(image),
{
    if image.fit == ImageFit::Cover {
        let (sw, sh, w, h) = (image.width as int, image.height as int, rect.width as int, rect.height as int);
        if w * sh >= h * sw {
            let crop = min_int(spec_scaled_dimension(sw, h, w), sh);
            assert(crop >= 1);
        } else {
            let crop = min_int(spec_scaled_dimension(sh, w, h), sw);
            assert(crop >= 1);
        }
    }
}

/// The source coordinate for a destination coordinate when `source_size`
/// pixels are spread over `destination_size` (nearest sampling).
pub open spec fn spec_map_scaled_coordinate(destination: int, destination_size: int, source_size: int) -> int {
    if destination_size == 0 || source_size == 0 {
        0
    } else {
        min_int(destination * source_size / destination_size, sat_sub(source_size, 1))
    }
}

pub fn map_scaled_coordinate(destination: u32, destination_size: u32, source_size: u32) -> (r: u32)
    ensures
        r == spec_map_scaled_coordinate(destination as int, destination_size as int, source_size as int),
{
    if destination_size == 0 || source_size == 0 {
        return 0;
    }
    proof {
        assert(destination as int * source_size as int <= 0xffff_ffff * 0xffff_ffff) by (nonlinear_arith)
            requires
                destination <= 0xffff_ffff,
                source_size <= 0xffff_ffff,
        ;
        assert(destination as int * source_size as int >= 0) by (nonlinear_arith);
    }
    let scaled = destination as u64 * source_size as u64 / destination_size as u64;
    let last = (source_size - 1) as u64;
    if scaled <= last {
        scaled as u32
    } else {
        last as u32
    }
}

/// The source coordinate and the 1/256 fraction toward the next one for a
/// destination coordinate (linear sampling; the ends map to the ends).
pub open spec fn spec_map_linear_coordinate(destination: int, destination_size: int, source_size: int) -> (int, int) {
    if destination_size <= 1 || source_size <= 1 {
        (0, 0)
    } else {
        let scaled = destination * (source_size - 1) * 256 / (destination_size - 1);
        (min_int(scaled / 256, source_size - 1), scaled % 256)
    }
}

pub fn map_linear_coordinate(destination: u32, destination_size: u32, source_size: u32) -> (r: (u32, u32))
    ensures
        (r.0 as int, r.1 as int) == spec_map_linear_coordinate(destination as int, destination_size as int, source_size as int),
        r.1 < 256,
{
    if destination_size <= 1 || source_size <= 1 {
        return (0, 0);
    }
    proof {
        assert(destination as int * (source_size - 1) as int * 256 <= 0xffff_ffff * 0xffff_ffff * 256) by (nonlinear_arith)
            requires
                destination <= 0xffff_ffff,
                source_size <= 0xffff_ffff,
                source_size >= 1,
        ;
        assert(destination as int * (source_size - 1) as int * 256 >= 0) by (nonlinear_arith)
            requires
                source_size >= 1,
        ;
    }
    let scaled = destination as u128 * (source_size - 1) as u128 * 256 / (destination_size - 1) as u128;
    let whole = scaled / 256;
    let last = (source_size - 1) as u128;
    let index = if whole <= last { whole as u32 } else { last as u32 };
    let fraction = (scaled % 256) as u32;
    (index, fraction)
}

/// `from` to `to` by `fraction` 256ths, rounded down.
pub open spec fn spec_interpolate_fixed(from: int, to: int, fraction: int) -> int {
    (from * sat_sub(256, fraction) + to * fraction) / 256
}

fn interpolate_u32_fixed(from: u32, to: u32, fraction: u32) -> (r: u32)
    requires
        from <= 65025,
        to <= 65025,
        fraction <= 256,
    ensures
        r == spec_interpolate_fixed(from as int, to as int, fraction as int),
        r <= if from >= to { from } else { to },
{
    let inverse = 256u32.saturating_sub(fraction);
    proof {
        let m = if from >= to { from as int } else { to as int };
        assert(from * inverse + to * fraction <= m * 256) by (nonlinear_arith)
            requires
                inverse == 256 - fraction,
                fraction <= 256,
                from <= m,
                to <= m,
        ;
        assert((from * inverse + to * fraction) / 256 <= m) by (nonlinear_arith)
            requires
                from * inverse + to * fraction <= m * 256,
                from * inverse + to * fraction >= 0,
        ;
        assert(from * inverse + to * fraction >= 0) by (nonlinear_arith)
            requires
                inverse >= 0,
                fraction >= 0,
        ;
    }
    (from * inverse + to * fraction) / 256
}

/// A colour channel interpolated in premultiplied form and divided by the
/// interpolated `alpha` again, rounded to nearest and at most 255.
pub open spec fn spec_interpolate_premultiplied(from: u8, from_alpha: u8, to: u8, to_alpha: u8, alpha: u8, fraction: int) -> u8 {
    let premultiplied = spec_interpolate_fixed(from * from_alpha, to * to_alpha, fraction);
    min_int((premultiplied + alpha / 2) / (alpha as int), 255) as u8
}

fn interpolate_premultiplied_component(from: u8, from_alpha: u8, to: u8, to_alpha: u8, alpha: u8, fraction: u32) -> (r: u8)
    requires
        alpha > 0,
        fraction <= 256,
    ensures
        r == spec_interpolate_premultiplied(from, from_alpha, to, to_alpha, alpha, fraction as int),
{
    proof {
        assert(from as int * from_alpha as int <= 65025) by (nonlinear_arith)
            requires
                from <= 255,
                from_alpha <= 255,
        ;
        assert(to as int * to_alpha as int <= 65025) by (nonlinear_arith)
            requires
                to <= 255,
                to_alpha <= 255,
        ;
    }
    let from = from as u32 * from_alpha as u32;
    let to = to as u32 * to_alpha as u32;
    let premultiplied = interpolate_u32_fixed(from, to, fraction);
    let value = (premultiplied + alpha as u32 / 2) / alpha as u32;
    min_u32(value, 255) as u8
}

/// Two RGBA pixels mixed by `fraction` 256ths: alpha interpolated directly,
/// colour channels interpolated premultiplied; transparent when the mixed
/// alpha is zero.
pub open spec fn spec_interpolate_pixel(from: Seq<u8>, to: Seq<u8>, fraction: int) -> Seq<u8> {
    let alpha = spec_interpolate_fixed(from[3] as int, to[3] as int, fraction) as u8;
    if alpha == 0 {
        seq![0u8, 0u8, 0u8, 0u8]
    } else {
        seq![
            spec_interpolate_premultiplied(from[0], from[3], to[0], to[3], alpha, fraction),
            spec_interpolate_premultiplied(from[1], from[3], to[1], to[3], alpha, fraction),
            spec_interpolate_premultiplied(from[2], from[3], to[2], to[3], alpha, fraction),
            alpha,
        ]
    }
}

/// A premultiplied component blended between two equal ends comes back as
/// that end's component.
proof fn lemma_premultiplied_same(v: u8, a: u8, fraction: int)
    requires
        0 <= fraction <= 256,
        a > 0,
    ensures
        spec_interpolate_fixed((v * a) as int, (v * a) as int, fraction) == v * a,
        spec_interpolate_premultiplied(v, a, v, a, a, fraction) == v,
{
    let m = v as int * a as int;
    assert(m * sat_sub(256, fraction) + m * fraction == m * 256) by (nonlinear_arith)
        requires
            0 <= fraction <= 256,
            sat_sub(256, fraction) == 256 - fraction,
    ;
    assert((m * 256) / 256 == m) by (nonlinear_arith);
    assert((m + a / 2) / (a as int) == v) by (nonlinear_arith)
        requires
            m == v as int * a as int,
            a > 0,
            0 <= a / 2 < a,
    ;
}

proof fn lemma_premultiplied_ends(c: u8, ca: u8, d: u8, da: u8)
    requires
        ca > 0,
    ensures
        spec_interpolate_premultiplied(c, ca, d, da, ca, 0) == c,
{
    let m = c as int * ca as int;
    assert(sat_sub(256, 0) == 256);
    assert((m * 256 + (d * da) as int * 0) / 256 == m) by (nonlinear_arith);
    assert((m + ca / 2) / (ca as int) == c) by (nonlinear_arith)
        requires
            m == c as int * ca as int,
            ca > 0,
            0 <= ca / 2 < ca,
    ;
}

proof fn lemma_premultiplied_ends_last(d: u8, da: u8, c: u8, ca: u8)
    requires
        ca > 0,
    ensures
        spec_interpolate_premultiplied(d, da, c, ca, ca, 256) == c,
{
    let m = c as int * ca as int;
    assert(sat_sub(256, 256) == 0);
    assert(((d * da) as int * 0 + m * 256) / 256 == m) by (nonlinear_arith);
    assert((m + ca / 2) / (ca as int) == c) by (nonlinear_arith)
        requires
            m == c as int * ca as int,
            ca > 0,
            0 <= ca / 2 < ca,
    ;
}

/// Blending a pixel: at fraction 0 it gives the first pixel, at 256 the
/// second, between two equal pixels that pixel (a fully transparent pixel
/// comes out as all zeros), and the alpha always lies between the two
/// alphas.
pub proof fn lemma_interpolate_pixel_ends(p: Seq<u8>, q: Seq<u8>, fraction: int)
    requires
        p.len() == 4,
        q.len() == 4,
        0 <= fraction <= 256,
    ensures
        spec_interpolate_pixel(p, q, 0) == (if p[3] == 0 { seq![0u8, 0u8, 0u8, 0u8] } else { p }),
        spec_interpolate_pixel(p, q, 256) == (if q[3] == 0 { seq![0u8, 0u8, 0u8, 0u8] } else { q }),
        spec_interpolate_pixel(p, p, fraction) == (if p[3] == 0 { seq![0u8, 0u8, 0u8, 0u8] } else { p }),
        min_int(p[3] as int, q[3] as int) <= spec_interpolate_pixel(p, q, fraction)[3] <= max_int(
            p[3] as int,
            q[3] as int,
        ),
{
    let (a, b) = (p[3] as int, q[3] as int);
    let f = fraction;
    assert(sat_sub(256, f) == 256 - f);
    assert(min_int(a, b) * 256 <= a * (256 - f) + b * f <= max_int(a, b) * 256) by (nonlinear_arith)
        requires
            0 <= f <= 256,
            0 <= a,
            0 <= b,
    ;
    assert(min_int(a, b) <= (a * (256 - f) + b * f) / 256 <= max_int(a, b)) by (nonlinear_arith)
        requires
            min_int(a, b) * 256 <= a * (256 - f) + b * f <= max_int(a, b) * 256,
    ;
    assert(spec_interpolate_fixed(a, b, 0) == a) by (nonlinear_arith)
        requires
            sat_sub(256, 0) == 256,
    ;
    assert(spec_interpolate_fixed(a, b, 256) == b) by (nonlinear_arith)
        requires
            sat_sub(256, 256) == 0,
    ;
    assert(spec_interpolate_fixed(a, a, f) == a) by (nonlinear_arith)
        requires
            0 <= f <= 256,
            sat_sub(256, f) == 256 - f,
    ;
    if a > 0 {
        let pa = p[3];
        lemma_premultiplied_same(p[0], pa, f);
        lemma_premultiplied_same(p[1], pa, f);
        lemma_premultiplied_same(p[2], pa, f);
        lemma_premultiplied_ends(p[0], pa, q[0], q[3]);
        lemma_premultiplied_ends(p[1], pa, q[1], q[3]);
        lemma_premultiplied_ends(p[2], pa, q[2], q[3]);
        assert(spec_interpolate_pixel(p, q, 0) =~= p);
        assert(spec_interpolate_pixel(p, p, f) =~= p);
    }
    if b > 0 {
        lemma_premultiplied_ends_last(p[0], p[3], q[0], q[3]);
        lemma_premultiplied_ends_last(p[1], p[3], q[1], q[3]);
        lemma_premultiplied_ends_last(p[2], p[3], q[2], q[3]);
        assert(spec_interpolate_pixel(p, q, 256) =~= q);
    }
}

pub fn interpolate_pixel(from: [u8; 4], to: [u8; 4], fraction: u32) -> (r: [u8; 4])
    requires
        fraction <= 256,
    ensures
        r@ == spec_interpolate_pixel(from@, to@, fraction as int),
{
    let alpha = interpolate_u32_fixed(from[3] as u32, to[3] as u32, fraction) as u8;
    if alpha == 0 {
        let z: [u8; 4] = [0, 0, 0, 0];
        assert(z@ =~= seq![0u8, 0u8, 0u8, 0u8]);
        return z;
    }
    let r = [
        interpolate_premultiplied_component(from[0], from[3], to[0], to[3], alpha, fraction),
        interpolate_premultiplied_component(from[1], from[3], to[1], to[3], alpha, fraction),
        interpolate_premultiplied_component(from[2], from[3], to[2], to[3], alpha, fraction),
        alpha,
    ];
    assert(r@ =~= spec_interpolate_pixel(from@, to@, fraction as int));
    r
}

/// The pixel shown at `(destination_x, destination_y)` of the placement's
/// destination with nearest sampling.
pub open spec fn spec_sample_nearest(image: &Image, placement: ImagePlacement, destination_x: int, destination_y: int) -> Seq<u8> {
    let source_x = sat_add(spec_map_scaled_coordinate(destination_x, placement.destination.width as int, placement.source_width as int), placement.source_x as int);
    let source_y = sat_add(spec_map_scaled_coordinate(destination_y, placement.destination.height as int, placement.source_height as int), placement.source_y as int);
    image.spec_pixel(source_x, source_y)
}

pub fn sample_image_nearest(image: &Image, placement: ImagePlacement, destination_x: u32, destination_y: u32) -> (r: [u8; 4])
    requires
        image.spec_pixels_ready(),
        placement.spec_valid_for(image),
    ensures
        r@ == spec_sample_nearest(image, placement, destination_x as int, destination_y as int),
{
    let source_x = sat_add_u32(
        map_scaled_coordinate(destination_x, placement.destination.width, placement.source_width),
        placement.source_x,
    );
    let source_y = sat_add_u32(
        map_scaled_coordinate(destination_y, placement.destination.height, placement.source_height),
        placement.source_y,
    );
    image_pixel(image, source_x, source_y)
}

/// The pixel shown at `(destination_x, destination_y)` with linear sampling:
/// the four neighbouring source pixels mixed by the fractional position.
pub open spec fn spec_sample_linear(image: &Image, placement: ImagePlacement, destination_x: int, destination_y: int) -> Seq<u8> {
    let (map_x, x_fraction) = spec_map_linear_coordinate(destination_x, placement.destination.width as int, placement.source_width as int);
    let (map_y, y_fraction) = spec_map_linear_coordinate(destination_y, placement.destination.height as int, placement.source_height as int);
    let source_x = sat_add(map_x, placement.source_x as int);
    let source_y = sat_add(map_y, placement.source_y as int);
    let next_x = min_int(source_x + 1, placement.source_x + placement.source_width - 1);
    let next_y = min_int(source_y + 1, placement.source_y + placement.source_height - 1);
    let top = spec_interpolate_pixel(image.spec_pixel(source_x, source_y), image.spec_pixel(next_x, source_y), x_fraction);
    let bottom = spec_interpolate_pixel(image.spec_pixel(source_x, next_y), image.spec_pixel(next_x, next_y), x_fraction);
    spec_interpolate_pixel(top, bottom, y_fraction)
}

pub fn sample_image_linear(image: &Image, placement: ImagePlacement, destination_x: u32, destination_y: u32) -> (r: [u8; 4])
    requires
        image.spec_pixels_ready(),
        placement.spec_valid_for(image),
    ensures
        r@ == spec_sample_linear(image, placement, destination_x as int, destination_y as int),
{
    let (map_x, x_fraction) = map_linear_coordinate(destination_x, placement.destination.width, placement.source_width);
    let (map_y, y_fraction) = map_linear_coordinate(destination_y, placement.destination.height, placement.source_height);
    let source_x = sat_add_u32(map_x, placement.source_x);
    let source_y = sat_add_u32(map_y, placement.source_y);
    let next_x = min_u32(source_x + 1, placement.source_x + placement.source_width - 1);
    let next_y = min_u32(source_y + 1, placement.source_y + placement.source_height - 1);
    let top_left = image_pixel(image, source_x, source_y);
    let top_right = image_pixel(image, next_x, source_y);
    let bottom_left = image_pixel(image, source_x, next_y);
    let bottom_right = image_pixel(image, next_x, next_y);
    let top = interpolate_pixel(top_left, top_right, x_fraction);
    let bottom = interpolate_pixel(bottom_left, bottom_right, x_fraction);
    interpolate_pixel(top, bottom, y_fraction)
}

} // verus!
