//! A BGRA pixel buffer with premultiplied alpha, and the damaged region of a frame.
use vstd::prelude::*;
use crate::geometry::Bounds;
use crate::num::{max_int, min_int, sat_add, sat_sub, max_u32, min_u32, sat_add_u32, sat_sub_u32};

verus! {

/// A rectangle of the buffer that was drawn to.
#[derive(Debug, Clone, Copy, PartialEq, Eq, Structural)]
pub struct DamageRect {
    pub x: u32,
    pub y: u32,
    pub width: u32,
    pub height: u32,
}

impl DamageRect {
    pub open spec fn spec_right(self) -> int {
        sat_add(self.x as int, self.width as int)
    }

    pub open spec fn spec_bottom(self) -> int {
        sat_add(self.y as int, self.height as int)
    }

    pub open spec fn spec_union(self, other: Self) -> Self {
        let x = min_int(self.x as int, other.x as int);
        let y = min_int(self.y as int, other.y as int);
        let right = max_int(self.spec_right(), other.spec_right());
        let bottom = max_int(self.spec_bottom(), other.spec_bottom());
        DamageRect { x: x as u32, y: y as u32, width: sat_sub(right, x) as u32, height: sat_sub(bottom, y) as u32 }
    }

    /// The part of the rectangle inside a `width` by `height` buffer, if any.
    pub open spec fn spec_clamp(self, width: u32, height: u32) -> Option<Self> {
        let x = min_int(self.x as int, width as int);
        let y = min_int(self.y as int, height as int);
        let right = min_int(self.spec_right(), width as int);
        let bottom = min_int(self.spec_bottom(), height as int);
        let w = sat_sub(right, x);
        let h = sat_sub(bottom, y);
        if w > 0 && h > 0 {
            Some(DamageRect { x: x as u32, y: y as u32, width: w as u32, height: h as u32 })
        } else {
            None
        }
    }

    pub open spec fn spec_from_bounds(bounds: Bounds) -> Self {
        DamageRect { x: bounds.x, y: bounds.y, width: bounds.width, height: bounds.height }
    }

    /// Whether `(x, y)` lies inside the rectangle.
    pub open spec fn spec_contains_point(self, x: int, y: int) -> bool {
        self.x <= x < self.spec_right() && self.y <= y < self.spec_bottom()
    }

    pub fn new(x: u32, y: u32, width: u32, height: u32) -> (r: Self)
        ensures
            r == (DamageRect { x, y, width, height }),
    {
        DamageRect { x, y, width, height }
    }

    pub fn from_bounds(bounds: Bounds) -> (r: Self)
        ensures
            r == Self::spec_from_bounds(bounds),
    {
        DamageRect::new(bounds.x, bounds.y, bounds.width, bounds.height)
    }

    /// The damage of something that moved from `previous` to `current`.
    pub fn from_bounds_pair(previous: Bounds, current: Bounds) -> (r: Self)
        ensures
            r == Self::spec_from_bounds(previous.spec_union(current)),
    {
        Self::from_bounds(previous.union(current))
    }

    pub fn include_bounds(self, bounds: Bounds) -> (r: Self)
        ensures
            r == self.spec_union(Self::spec_from_bounds(bounds)),
    {
        self.union(Self::from_bounds(bounds))
    }

    pub fn right(self) -> (r: u32)
        ensures
            r == self.spec_right(),
    {
        sat_add_u32(self.x, self.width)
    }

    pub fn bottom(self) -> (r: u32)
        ensures
            r == self.spec_bottom(),
    {
        sat_add_u32(self.y, self.height)
    }

    pub fn union(self, other: Self) -> (r: Self)
        ensures
            r == self.spec_union(other),
    {
        let x = min_u32(self.x, other.x);
        let y = min_u32(self.y, other.y);
        let right = max_u32(self.right(), other.right());
        let bottom = max_u32(self.bottom(), other.bottom());
        DamageRect { x, y, width: sat_sub_u32(right, x), height: sat_sub_u32(bottom, y) }
    }

    pub fn clamp(self, width: u32, height: u32) -> (r: Option<Self>)
        ensures
            r == self.spec_clamp(width, height),
    {
        let x = min_u32(self.x, width);
        let y = min_u32(self.y, height);
        let right = min_u32(self.right(), width);
        let bottom = min_u32(self.bottom(), height);
        let w = sat_sub_u32(right, x);
        let h = sat_sub_u32(bottom, y);
        if w > 0 && h > 0 {
            Some(DamageRect { x, y, width: w, height: h })
        } else {
            None
        }
    }
}

/// Damage union does not depend on the order of its operands.
pub proof fn lemma_damage_union_commutes(a: DamageRect, b: DamageRect)
    ensures
        a.spec_union(b) == b.spec_union(a),
{
}

/// Damage union keeps every pixel of both operands.
pub proof fn lemma_damage_union_contains(a: DamageRect, b: DamageRect, x: int, y: int)
    requires
        a.spec_contains_point(x, y) || b.spec_contains_point(x, y),
    ensures
        a.spec_union(b).spec_contains_point(x, y),
{
}

/// A clamped rectangle lies inside the buffer, and holds exactly the pixels
/// of the rectangle that lie inside the buffer.
pub proof fn lemma_damage_clamp_exact(rect: DamageRect, width: u32, height: u32, x: int, y: int)
    ensures
        match rect.spec_clamp(width, height) {
            Some(c) => c.spec_right() <= width && c.spec_bottom() <= height && (c.spec_contains_point(x, y) <==> (
            rect.spec_contains_point(x, y) && 0 <= x < width && 0 <= y < height)),
            None => !(rect.spec_contains_point(x, y) && 0 <= x < width && 0 <= y < height),
        },
{
}

/// `component * alpha / 255`, rounded to nearest.
pub open spec fn spec_premultiply(component: u8, alpha: u8) -> u8 {
    ((component as int * alpha as int + 127) / 255) as u8
}

/// An RGBA colour as it is stored: blue, green, red, alpha, with the colour
/// channels premultiplied by alpha.
pub open spec fn spec_premultiplied_bgra(rgba: [u8; 4]) -> Seq<u8> {
    seq![
        spec_premultiply(rgba@[2], rgba@[3]),
        spec_premultiply(rgba@[1], rgba@[3]),
        spec_premultiply(rgba@[0], rgba@[3]),
        rgba@[3],
    ]
}

/// `value * alpha / 255`, rounded to nearest.
pub open spec fn spec_mul_div_255(value: int, alpha: int) -> int {
    (value * alpha + 127) / 255
}

/// The premultiplied "over" operator: `foreground` drawn over `background`.
pub open spec fn spec_blend(background: Seq<u8>, foreground: Seq<u8>) -> Seq<u8> {
    let fa = foreground[3] as int;
    if fa == 0 {
        background
    } else if fa == 255 {
        foreground
    } else {
        let inverse = 255 - fa;
        let out_alpha = fa + spec_mul_div_255(background[3] as int, inverse);
        if out_alpha == 0 {
            seq![0u8, 0u8, 0u8, 0u8]
        } else {
            seq![
                min_int(foreground[0] as int + spec_mul_div_255(background[0] as int, inverse), 255) as u8,
                min_int(foreground[1] as int + spec_mul_div_255(background[1] as int, inverse), 255) as u8,
                min_int(foreground[2] as int + spec_mul_div_255(background[2] as int, inverse), 255) as u8,
                min_int(out_alpha, 255) as u8,
            ]
        }
    }
}

fn premultiply(component: u8, alpha: u8) -> (r: u8)
    ensures
        r == spec_premultiply(component, alpha),
{
    proof {
        assert(component as int * alpha as int <= 255 * 255) by (nonlinear_arith)
            requires
                component <= 255,
                alpha <= 255,
        ;
        assert((component as int * alpha as int + 127) / 255 <= 255) by (nonlinear_arith)
            requires
                component <= 255,
                alpha <= 255,
        ;
    }
    ((component as u16 * alpha as u16 + 127) / 255) as u8
}

fn rgba_to_premultiplied_bgra(rgba: [u8; 4]) -> (r: [u8; 4])
    ensures
        r@ == spec_premultiplied_bgra(rgba),
{
    let r = [premultiply(rgba[2], rgba[3]), premultiply(rgba[1], rgba[3]), premultiply(rgba[0], rgba[3]), rgba[3]];
    assert(r@ =~= spec_premultiplied_bgra(rgba));
    r
}

fn mul_div_255(value: u32, alpha: u32) -> (r: u32)
    requires
        value <= 255,
        alpha <= 255,
    ensures
        r == spec_mul_div_255(value as int, alpha as int),
        r <= 255,
{
    proof {
        assert(value * alpha <= 255 * 255) by (nonlinear_arith)
            requires
                value <= 255,
                alpha <= 255,
        ;
    }
    (value * alpha + 127) / 255
}

fn blend_bgra(background: [u8; 4], foreground: [u8; 4]) -> (r: [u8; 4])
    ensures
        r@ == spec_blend(background@, foreground@),
{
    let foreground_alpha = foreground[3] as u32;
    if foreground_alpha == 0 {
        return background;
    }
    if foreground_alpha == 255 {
        return foreground;
    }
    let background_alpha = background[3] as u32;
    let inverse = 255 - foreground_alpha;
    let output_alpha = foreground_alpha + mul_div_255(background_alpha, inverse);
    if output_alpha == 0 {
        let z: [u8; 4] = [0, 0, 0, 0];
        assert(z@ =~= seq![0u8, 0u8, 0u8, 0u8]);
        return z;
    }
    let b0 = foreground[0] as u32 + mul_div_255(background[0] as u32, inverse);
    let b1 = foreground[1] as u32 + mul_div_255(background[1] as u32, inverse);
    let b2 = foreground[2] as u32 + mul_div_255(background[2] as u32, inverse);
    let r: [u8; 4] = [
        min_u32(b0, 255) as u8,
        min_u32(b1, 255) as u8,
        min_u32(b2, 255) as u8,
        min_u32(output_alpha, 255) as u8,
    ];
    assert(r@ =~= spec_blend(background@, foreground@));
    r
}

/// What a fill leaves in one pixel: the colour itself, or the colour
/// blended over what was there.
pub open spec fn spec_paint(old_pixel: Seq<u8>, bgra: Seq<u8>, blend: bool) -> Seq<u8> {
    if blend {
        spec_blend(old_pixel, bgra)
    } else {
        bgra
    }
}

/// Whether byte `index` of a buffer with `stride` bytes per row belongs to a
/// pixel inside `rect`.
pub open spec fn spec_in_rect(rect: DamageRect, stride: int, index: int) -> bool {
    stride > 0 && rect.y <= index / stride < rect.y + rect.height && rect.x * 4 <= index % stride < (rect.x
        + rect.width) * 4
}

/// The index of the first byte of the pixel that holds byte `index`.
pub open spec fn spec_pixel_start(stride: int, index: int) -> int {
    (index / stride) * stride + ((index % stride) / 4) * 4
}

/// The bytes of a buffer after every pixel of `rect` has been painted with
/// `bgra` (copied, or blended over the old pixel).
pub open spec fn spec_fill(old: Seq<u8>, stride: int, rect: DamageRect, bgra: Seq<u8>, blend: bool) -> Seq<u8> {
    Seq::new(
        old.len(),
        |i: int|
            if spec_in_rect(rect, stride, i) {
                let start = spec_pixel_start(stride, i);
                spec_paint(old.subrange(start, start + 4), bgra, blend)[i - start]
            } else {
                old[i]
            },
    )
}

/// Facts about the byte `i` relative to the pixel `(x, y)` of a buffer with
/// `stride` bytes per row.
proof fn lemma_pixel_index(stride: int, y: int, x: int, i: int)
    requires
        stride > 0,
        0 <= x,
        x * 4 + 4 <= stride,
        0 <= y,
        0 <= i,
    ensures
        (i / stride == y && (i % stride) / 4 == x) <==> (y * stride + x * 4 <= i < y * stride + x * 4 + 4),
        (y * stride + x * 4 <= i < y * stride + x * 4 + 4) ==> (i / stride == y && i % stride == i - y * stride
            && spec_pixel_start(stride, i) == y * stride + x * 4),
{
    vstd::arithmetic::div_mod::lemma_fundamental_div_mod(i, stride);
    vstd::arithmetic::div_mod::lemma_mod_pos_bound(i, stride);
    if y * stride + x * 4 <= i < y * stride + x * 4 + 4 {
        vstd::arithmetic::div_mod::lemma_fundamental_div_mod_converse(i, stride, y, i - y * stride);
    }
    if i / stride == y && (i % stride) / 4 == x {
        vstd::arithmetic::div_mod::lemma_fundamental_div_mod(i % stride, 4);
        assert(i == stride * y + i % stride);
        assert(y * stride == stride * y) by (nonlinear_arith);
    }
}

/// The bytes after every whole pixel of the buffer (row padding included)
/// has been set to `bgra`; a trailing partial pixel is left alone.
pub open spec fn spec_clear_bytes(old: Seq<u8>, bgra: Seq<u8>) -> Seq<u8> {
    Seq::new(old.len(), |i: int| if i < (old.len() / 4) * 4 { bgra[i % 4] } else { old[i] })
}

/// The bytes with the pixel that starts at `start` set to `value`.
pub open spec fn spec_with_pixel(old: Seq<u8>, start: int, value: Seq<u8>) -> Seq<u8> {
    Seq::new(old.len(), |i: int| if start <= i < start + 4 { value[i - start] } else { old[i] })
}

fn reborrow_bytes<'b, 'c>(bytes: &'b mut &'c mut [u8]) -> (r: &'b mut [u8])
    ensures
        r@ == old(bytes)@,
        final(bytes)@ == final(r)@,
    no_unwind
{
    &mut **bytes
}

/// Pixel `(x, y)` of a well-formed buffer lies inside it.
proof fn lemma_pixel_fits(width: int, height: int, stride: int, x: int, y: int)
    requires
        0 <= x < width,
        0 <= y < height,
        stride >= width * 4,
    ensures
        y * stride + x * 4 + 4 <= spec_required_len(width, height, stride),
{
    assert(y * stride + x * 4 + 4 <= stride * (height - 1) + width * 4) by (nonlinear_arith)
        requires
            0 <= x < width,
            0 <= y < height,
            stride >= width * 4,
    ;
}

/// Whether a damage rectangle has area and lies inside a `width` by
/// `height` buffer.
pub open spec fn spec_damage_inside(d: DamageRect, width: u32, height: u32) -> bool {
    &&& d.width > 0
    &&& d.height > 0
    &&& d.x + d.width <= width
    &&& d.y + d.height <= height
}

/// A BGRA buffer, `stride` bytes per row, that painting draws into.
pub struct Canvas<'a> {
    pixels: &'a mut [u8],
    width: u32,
    height: u32,
    stride: u32,
    scale: u32,
    damage: Option<DamageRect>,
}

/// The number of bytes that a `width` by `height` buffer with `stride` bytes
/// per row needs: every row but the last in full, and the pixels of the last.
pub open spec fn spec_required_len(width: int, height: int, stride: int) -> int {
    if height == 0 {
        0
    } else {
        stride * (height - 1) + width * 4
    }
}

impl<'a> Canvas<'a> {
    /// The buffer is long enough for its size, and the size fits in `u32`.
    pub closed spec fn wf(&self) -> bool {
        &&& self.stride >= self.width * 4
        &&& spec_required_len(self.width as int, self.height as int, self.stride as int) <= u32::MAX
        &&& spec_required_len(self.width as int, self.height as int, self.stride as int) <= self.pixels@.len()
        &&& self.scale >= 1
        &&& match self.damage {
            Some(d) => spec_damage_inside(d, self.width, self.height),
            None => true,
        }
    }

    /// The bytes of the buffer.
    pub closed spec fn spec_bytes(&self) -> Seq<u8> {
        self.pixels@
    }

    pub closed spec fn spec_width(&self) -> u32 {
        self.width
    }

    pub closed spec fn spec_height(&self) -> u32 {
        self.height
    }

    pub closed spec fn spec_stride(&self) -> u32 {
        self.stride
    }

    pub closed spec fn spec_scale(&self) -> u32 {
        self.scale
    }

    /// The region drawn to so far, clamped to the buffer.
    pub closed spec fn spec_damage(&self) -> Option<DamageRect> {
        self.damage
    }

    /// The damage after `rect` has been drawn to.
    pub open spec fn spec_damage_after(&self, rect: DamageRect) -> Option<DamageRect> {
        match rect.spec_clamp(self.spec_width(), self.spec_height()) {
            None => self.spec_damage(),
            Some(c) => Some(
                match self.spec_damage() {
                    Some(d) => d.spec_union(c),
                    None => c,
                },
            ),
        }
    }

    /// The index of the first byte of pixel `(x, y)`.
    pub open spec fn spec_pixel_index(&self, x: int, y: int) -> int {
        y * self.spec_stride() + x * 4
    }

    /// Whether the canvas was left as it was but for its bytes and damage.
    pub open spec fn spec_same_shape(&self, other: &Canvas) -> bool {
        &&& self.spec_width() == other.spec_width()
        &&& self.spec_height() == other.spec_height()
        &&& self.spec_stride() == other.spec_stride()
        &&& self.spec_scale() == other.spec_scale()
        &&& self.spec_bytes().len() == other.spec_bytes().len()
    }

    /// Wraps `pixels` as a `width` by `height` canvas with `stride` bytes per
    /// row; `None` when a row does not fit in `stride`, when the size
    /// overflows `u32`, or when `pixels` is too short. A zero scale counts as 1.
    pub fn from_bgra_pixels(pixels: &'a mut [u8], width: u32, height: u32, stride: u32, scale: u32) -> (r: Option<Self>)
        ensures
            match r {
                Some(c) => {
                    &&& c.spec_bytes() == old(pixels)@
                    &&& c.spec_width() == width
                    &&& c.spec_height() == height
                    &&& c.spec_stride() == stride
                    &&& c.spec_scale() == max_int(scale as int, 1)
                    &&& c.spec_damage() is None
                    &&& c.wf()
                },
                None => true,
            },
            (r is Some) <==> (width * 4 <= u32::MAX && stride >= width * 4 && (height == 0 || (stride * (height
                - 1) <= u32::MAX && spec_required_len(width as int, height as int, stride as int) <= u32::MAX))
                && spec_required_len(width as int, height as int, stride as int) <= old(pixels)@.len()),
    {
        let row = match width.checked_mul(4) {
            Some(v) => v,
            None => return None,
        };
        if stride < row {
            return None;
        }
        let required: u32 = if height == 0 {
            0
        } else {
            let full = match stride.checked_mul(height - 1) {
                Some(v) => v,
                None => return None,
            };
            match full.checked_add(row) {
                Some(v) => v,
                None => return None,
            }
        };
        if pixels.len() < required as usize {
            return None;
        }
        let scale = if scale >= 1 { scale } else { 1 };
        Some(Canvas { pixels, width, height, stride, scale, damage: None })
    }

    pub fn pixels(&self) -> (r: &[u8])
        ensures
            r@ == self.spec_bytes(),
    {
        self.pixels
    }

    pub fn width(&self) -> (r: u32)
        ensures
            r == self.spec_width(),
    {
        self.width
    }

    pub fn height(&self) -> (r: u32)
        ensures
            r == self.spec_height(),
    {
        self.height
    }

    pub fn stride(&self) -> (r: u32)
        ensures
            r == self.spec_stride(),
    {
        self.stride
    }

    pub fn scale(&self) -> (r: u32)
        ensures
            r == self.spec_scale(),
    {
        self.scale
    }

    pub fn damage(&self) -> (r: Option<DamageRect>)
        ensures
            r == self.spec_damage(),
    {
        self.damage
    }

    /// Records `rect`, clamped to the buffer, as drawn to.
    pub fn damage_rect(&mut self, rect: DamageRect)
        requires
            old(self).wf(),
        ensures
            final(self).wf(),
            final(self).spec_same_shape(old(self)),
            final(self).spec_bytes() == old(self).spec_bytes(),
            final(self).spec_damage() == old(self).spec_damage_after(rect),
    {
        let clamped = match rect.clamp(self.width, self.height) {
            Some(c) => c,
            None => return,
        };
        self.damage = Some(
            match self.damage {
                Some(damage) => damage.union(clamped),
                None => clamped,
            },
        );
    }

    /// Records the whole buffer as drawn to.
    pub fn damage_all(&mut self)
        requires
            old(self).wf(),
        ensures
            final(self).wf(),
            final(self).spec_same_shape(old(self)),
            final(self).spec_bytes() == old(self).spec_bytes(),
            final(self).spec_damage() == old(self).spec_damage_after(
                DamageRect { x: 0, y: 0, width: old(self).spec_width(), height: old(self).spec_height() },
            ),
            final(self).spec_damage() == if old(self).spec_width() > 0 && old(self).spec_height() > 0 {
                Some(DamageRect { x: 0, y: 0, width: old(self).spec_width(), height: old(self).spec_height() })
            } else {
                old(self).spec_damage()
            },
    {
        let rect = DamageRect::new(0, 0, self.width, self.height);
        self.damage_rect(rect);
    }


    /// Fills every whole pixel of the buffer, row padding included, with
    /// `rgba` and records the whole canvas as drawn to.
    pub fn clear(&mut self, rgba: [u8; 4])
        requires
            old(self).wf(),
        ensures
            final(self).wf(),
            final(self).spec_same_shape(old(self)),
            final(self).spec_bytes() == spec_clear_bytes(old(self).spec_bytes(), spec_premultiplied_bgra(rgba)),
            final(self).spec_damage() == old(self).spec_damage_after(
                DamageRect { x: 0, y: 0, width: old(self).spec_width(), height: old(self).spec_height() },
            ),
    {
        let bgra = rgba_to_premultiplied_bgra(rgba);
        let ghost old_bytes = self.spec_bytes();
        let len = self.pixels.len();
        let chunks = len / 4;
        let mut j: usize = 0;
        while j < chunks
            invariant
                0 <= j <= chunks,
                chunks == len / 4,
                len == old_bytes.len(),
                self.spec_bytes().len() == len,
                self.spec_same_shape(old(self)),
                self.wf(),
                self.spec_damage() == old(self).spec_damage(),
                old_bytes == old(self).spec_bytes(),
                bgra@ == spec_premultiplied_bgra(rgba),
                forall|i: int|
                    0 <= i < len ==> #[trigger] self.spec_bytes()[i] == if i < j * 4 {
                        bgra@[i % 4]
                    } else {
                        old_bytes[i]
                    },
            decreases chunks - j,
        {
            self.store_pixel(j * 4, bgra);
            j = j + 1;
        }
        assert(self.spec_bytes() =~= spec_clear_bytes(old_bytes, bgra@));
        self.damage_all();
    }

    /// Fills the part of `rect` inside the buffer with `rgba` (replacing what
    /// was there) and records it as drawn to.
    pub fn clear_rect(&mut self, rect: DamageRect, rgba: [u8; 4])
        requires
            old(self).wf(),
        ensures
            final(self).wf(),
            final(self).spec_same_shape(old(self)),
            final(self).spec_bytes() == match rect.spec_clamp(old(self).spec_width(), old(self).spec_height()) {
                Some(c) => spec_fill(
                    old(self).spec_bytes(),
                    old(self).spec_stride() as int,
                    c,
                    spec_premultiplied_bgra(rgba),
                    false,
                ),
                None => old(self).spec_bytes(),
            },
            final(self).spec_damage() == old(self).spec_damage_after(rect),
    {
        let clamped = match rect.clamp(self.width, self.height) {
            Some(c) => c,
            None => return,
        };
        let bgra = rgba_to_premultiplied_bgra(rgba);
        self.fill_pixels(clamped, bgra, false);
        self.damage_rect(clamped);
    }

    /// Draws `rgba` over the part of `rect` inside the buffer; a fully
    /// transparent colour changes nothing and damages nothing.
    pub fn blend_rect(&mut self, rect: DamageRect, rgba: [u8; 4])
        requires
            old(self).wf(),
        ensures
            final(self).wf(),
            final(self).spec_same_shape(old(self)),
            final(self).spec_bytes() == match rect.spec_clamp(old(self).spec_width(), old(self).spec_height()) {
                Some(c) => if rgba@[3] == 0 {
                    old(self).spec_bytes()
                } else {
                    spec_fill(
                        old(self).spec_bytes(),
                        old(self).spec_stride() as int,
                        c,
                        spec_premultiplied_bgra(rgba),
                        true,
                    )
                },
                None => old(self).spec_bytes(),
            },
            final(self).spec_damage() == if rgba@[3] == 0 {
                old(self).spec_damage()
            } else {
                old(self).spec_damage_after(rect)
            },
    {
        if rgba[3] == 0 {
            return;
        }
        let clamped = match rect.clamp(self.width, self.height) {
            Some(c) => c,
            None => return,
        };
        let bgra = rgba_to_premultiplied_bgra(rgba);
        self.fill_pixels(clamped, bgra, true);
        self.damage_rect(clamped);
    }

    /// Sets pixel `(x, y)` to `rgba`; pixels outside the buffer are ignored.
    pub fn put_pixel(&mut self, x: u32, y: u32, rgba: [u8; 4])
        requires
            old(self).wf(),
        ensures
            final(self).wf(),
            final(self).spec_same_shape(old(self)),
            final(self).spec_bytes() == if x < old(self).spec_width() && y < old(self).spec_height() {
                spec_with_pixel(
                    old(self).spec_bytes(),
                    old(self).spec_pixel_index(x as int, y as int),
                    spec_premultiplied_bgra(rgba),
                )
            } else {
                old(self).spec_bytes()
            },
            final(self).spec_damage() == old(self).spec_damage_after(DamageRect { x, y, width: 1, height: 1 }),
    {
        if x >= self.width || y >= self.height {
            return;
        }
        proof {
            lemma_pixel_fits(self.width as int, self.height as int, self.stride as int, x as int, y as int);
        }
        let start = (y * self.stride + x * 4) as usize;
        let bgra = rgba_to_premultiplied_bgra(rgba);
        self.store_pixel(start, bgra);
        assert(self.spec_bytes() =~= spec_with_pixel(
            old(self).spec_bytes(),
            old(self).spec_pixel_index(x as int, y as int),
            bgra@,
        ));
        self.damage_rect(DamageRect::new(x, y, 1, 1));
    }

    /// Draws `rgba` over pixel `(x, y)`; pixels outside the buffer and fully
    /// transparent colours are ignored.
    pub fn blend_pixel(&mut self, x: u32, y: u32, rgba: [u8; 4])
        requires
            old(self).wf(),
        ensures
            final(self).wf(),
            final(self).spec_same_shape(old(self)),
            final(self).spec_bytes() == if x < old(self).spec_width() && y < old(self).spec_height() && rgba@[3] != 0 {
                spec_with_pixel(
                    old(self).spec_bytes(),
                    old(self).spec_pixel_index(x as int, y as int),
                    spec_blend(
                        old(self).spec_bytes().subrange(
                            old(self).spec_pixel_index(x as int, y as int),
                            old(self).spec_pixel_index(x as int, y as int) + 4,
                        ),
                        spec_premultiplied_bgra(rgba),
                    ),
                )
            } else {
                old(self).spec_bytes()
            },
            final(self).spec_damage() == if x < old(self).spec_width() && y < old(self).spec_height() && rgba@[3] != 0 {
                old(self).spec_damage_after(DamageRect { x, y, width: 1, height: 1 })
            } else {
                old(self).spec_damage()
            },
    {
        if x >= self.width || y >= self.height || rgba[3] == 0 {
            return;
        }
        proof {
            lemma_pixel_fits(self.width as int, self.height as int, self.stride as int, x as int, y as int);
        }
        let start = (y * self.stride + x * 4) as usize;
        let bgra = rgba_to_premultiplied_bgra(rgba);
        let value = if rgba[3] == 255 {
            bgra
        } else {
            let background = self.load_pixel(start);
            blend_bgra(background, bgra)
        };
        assert(value@ == spec_blend(old(self).spec_bytes().subrange(start as int, start + 4), bgra@));
        self.store_pixel(start, value);
        assert(self.spec_bytes() =~= spec_with_pixel(
            old(self).spec_bytes(),
            old(self).spec_pixel_index(x as int, y as int),
            value@,
        ));
        self.damage_rect(DamageRect::new(x, y, 1, 1));
    }


    /// The bytes of the buffer, for drawing by hand; the whole canvas is
    /// recorded as drawn to first.
    pub fn pixels_mut(&mut self) -> (r: &mut [u8])
        requires
            old(self).wf(),
        ensures
            r@ == old(self).spec_bytes(),
            final(self).spec_bytes() == final(r)@,
            final(self).spec_width() == old(self).spec_width(),
            final(self).spec_height() == old(self).spec_height(),
            final(self).spec_stride() == old(self).spec_stride(),
            final(self).spec_scale() == old(self).spec_scale(),
            final(self).spec_damage() == old(self).spec_damage_after(
                DamageRect { x: 0, y: 0, width: old(self).spec_width(), height: old(self).spec_height() },
            ),
            final(self).spec_damage() == if old(self).spec_width() > 0 && old(self).spec_height() > 0 {
                Some(DamageRect { x: 0, y: 0, width: old(self).spec_width(), height: old(self).spec_height() })
            } else {
                old(self).spec_damage()
            },
    {
        self.damage_all();
        reborrow_bytes(&mut self.pixels)
    }

    /// Stores `value` in the four bytes from `start`.
    fn store_pixel(&mut self, start: usize, value: [u8; 4])
        requires
            start + 4 <= old(self).spec_bytes().len(),
        ensures
            final(self).spec_same_shape(old(self)),
            final(self).spec_damage() == old(self).spec_damage(),
            final(self).spec_bytes() == old(self).spec_bytes().update(start as int, value@[0]).update(
                start + 1,
                value@[1],
            ).update(start + 2, value@[2]).update(start + 3, value@[3]),
    {
        self.pixels[start] = value[0];
        self.pixels[start + 1] = value[1];
        self.pixels[start + 2] = value[2];
        self.pixels[start + 3] = value[3];
    }

    /// The four bytes from `start`.
    fn load_pixel(&self, start: usize) -> (r: [u8; 4])
        requires
            start + 4 <= self.spec_bytes().len(),
        ensures
            r@ == self.spec_bytes().subrange(start as int, start + 4),
    {
        let r = [self.pixels[start], self.pixels[start + 1], self.pixels[start + 2], self.pixels[start + 3]];
        assert(r@ =~= self.spec_bytes().subrange(start as int, start + 4));
        r
    }

    /// Paints every pixel of `rect` (which lies inside the buffer) with
    /// `bgra`, copied or blended over the old pixel.
    fn fill_pixels(&mut self, rect: DamageRect, bgra: [u8; 4], blend: bool)
        requires
            old(self).wf(),
            rect.spec_right() <= old(self).spec_width(),
            rect.spec_bottom() <= old(self).spec_height(),
            rect.x + rect.width <= old(self).spec_width(),
            rect.y + rect.height <= old(self).spec_height(),
        ensures
            final(self).wf(),
            final(self).spec_same_shape(old(self)),
            final(self).spec_damage() == old(self).spec_damage(),
            final(self).spec_bytes() == spec_fill(
                old(self).spec_bytes(),
                old(self).spec_stride() as int,
                rect,
                bgra@,
                blend,
            ),
    {
        let ghost old_bytes = self.spec_bytes();
        let ghost stride = self.stride as int;
        let ghost len = old_bytes.len();
        let bottom = rect.y + rect.height;
        let right = rect.x + rect.width;
        let mut y = rect.y;
        while y < bottom
            invariant
                rect.y <= y <= bottom,
                bottom == rect.y + rect.height,
                right == rect.x + rect.width,
                right <= self.width,
                bottom <= self.height,
                stride == self.stride,
                self.stride >= self.width * 4,
                spec_required_len(self.width as int, self.height as int, stride) <= u32::MAX,
                spec_required_len(self.width as int, self.height as int, stride) <= len,
                self.spec_bytes().len() == len,
                self.spec_same_shape(old(self)),
                self.wf(),
                self.spec_damage() == old(self).spec_damage(),
                old_bytes == old(self).spec_bytes(),
                forall|i: int|
                    0 <= i < len ==> #[trigger] self.spec_bytes()[i] == if spec_in_rect(rect, stride, i) && i
                        / stride < y {
                        spec_fill(old_bytes, stride, rect, bgra@, blend)[i]
                    } else {
                        old_bytes[i]
                    },
            decreases bottom - y,
        {
            let mut x = rect.x;
            while x < right
                invariant
                    rect.y <= y < bottom,
                    rect.x <= x <= right,
                    bottom == rect.y + rect.height,
                    right == rect.x + rect.width,
                    right <= self.width,
                    bottom <= self.height,
                    stride == self.stride,
                    self.stride >= self.width * 4,
                    spec_required_len(self.width as int, self.height as int, stride) <= u32::MAX,
                    spec_required_len(self.width as int, self.height as int, stride) <= len,
                    self.spec_bytes().len() == len,
                    self.spec_same_shape(old(self)),
                    self.wf(),
                    self.spec_damage() == old(self).spec_damage(),
                    old_bytes == old(self).spec_bytes(),
                    forall|i: int|
                        0 <= i < len ==> #[trigger] self.spec_bytes()[i] == if spec_in_rect(rect, stride, i) && (i
                            / stride < y || (i / stride == y && (i % stride) / 4 < x)) {
                            spec_fill(old_bytes, stride, rect, bgra@, blend)[i]
                        } else {
                            old_bytes[i]
                        },
                decreases right - x,
            {
                proof {
                    assert(y as int * stride + x as int * 4 + 4 <= spec_required_len(
                        self.width as int,
                        self.height as int,
                        stride,
                    )) by (nonlinear_arith)
                        requires
                            y < self.height,
                            x < self.width,
                            stride >= self.width * 4,
                            spec_required_len(self.width as int, self.height as int, stride) == stride * (
                            self.height - 1) + self.width * 4,
                    ;
                }
                let start = (y * self.stride + x * 4) as usize;
                let old_pixel = self.load_pixel(start);
                let value = if blend { blend_bgra(old_pixel, bgra) } else { bgra };
                let ghost before = self.spec_bytes();
                self.store_pixel(start, value);
                proof {
                    assert(old_pixel@ == old_bytes.subrange(start as int, start + 4)) by {
                        assert forall|k: int| 0 <= k < 4 implies #[trigger] old_pixel@[k] == old_bytes[start + k] by {
                            lemma_pixel_index(stride, y as int, x as int, start + k);
                        }
                    }
                    assert forall|i: int| 0 <= i < len implies #[trigger] self.spec_bytes()[i] == if spec_in_rect(
                        rect,
                        stride,
                        i,
                    ) && (i / stride < y || (i / stride == y && (i % stride) / 4 < x + 1)) {
                        spec_fill(old_bytes, stride, rect, bgra@, blend)[i]
                    } else {
                        old_bytes[i]
                    } by {
                        lemma_pixel_index(stride, y as int, x as int, i);
                        if start <= i < start + 4 {
                            assert(spec_in_rect(rect, stride, i));
                        }
                    }
                }
                x = x + 1;
            }
            proof {
                assert forall|i: int| 0 <= i < len implies #[trigger] self.spec_bytes()[i] == if spec_in_rect(
                    rect,
                    stride,
                    i,
                ) && i / stride < y + 1 {
                    spec_fill(old_bytes, stride, rect, bgra@, blend)[i]
                } else {
                    old_bytes[i]
                } by {
                    if spec_in_rect(rect, stride, i) && i / stride == y {
                        assert((i % stride) / 4 < x);
                    }
                }
            }
            y = y + 1;
        }
        proof {
            assert(self.spec_bytes() =~= spec_fill(old_bytes, stride, rect, bgra@, blend)) by {
                assert forall|i: int| 0 <= i < len implies self.spec_bytes()[i] == spec_fill(
                    old_bytes,
                    stride,
                    rect,
                    bgra@,
                    blend,
                )[i] by {
                    if spec_in_rect(rect, stride, i) {
                        assert(i / stride < y);
                    }
                }
            }
        }
    }
}

/// Drawing into a rectangle changes no pixel that the damage does not then
/// cover: a byte that a fill (copy or blend) changes belongs to a pixel
/// inside the canvas's damage after that rectangle.
pub proof fn lemma_fill_changes_lie_in_damage(canvas: &Canvas, rect: DamageRect, bgra: Seq<u8>, blend: bool, i: int)
    requires
        canvas.wf(),
        0 <= i < canvas.spec_bytes().len(),
        rect.spec_clamp(canvas.spec_width(), canvas.spec_height()) matches Some(c) && spec_fill(
            canvas.spec_bytes(),
            canvas.spec_stride() as int,
            c,
            bgra,
            blend,
        )[i] != canvas.spec_bytes()[i],
    ensures
        canvas.spec_damage_after(rect) matches Some(d) && d.spec_contains_point(
            (i % canvas.spec_stride() as int) / 4,
            i / canvas.spec_stride() as int,
        ),
{
    let c = rect.spec_clamp(canvas.spec_width(), canvas.spec_height())->0;
    let stride = canvas.spec_stride() as int;
    assert(spec_in_rect(c, stride, i));
    let m = i % stride;
    let x = m / 4;
    let y = i / stride;
    vstd::arithmetic::div_mod::lemma_fundamental_div_mod(m, 4);
    vstd::arithmetic::div_mod::lemma_mod_pos_bound(m, 4);
    assert(c.x <= x < c.x + c.width) by (nonlinear_arith)
        requires
            c.x * 4 <= m < (c.x + c.width) * 4,
            m == 4 * x + m % 4,
            0 <= m % 4 < 4,
    ;
    lemma_damage_clamp_exact(rect, canvas.spec_width(), canvas.spec_height(), x, y);
    assert(c.spec_contains_point(x, y));
    match canvas.spec_damage() {
        Some(d) => lemma_damage_union_contains(d, c, x, y),
        None => {},
    }
}

/// What a well-formed canvas keeps: each row holds its pixels, every pixel
/// lies inside the bytes (and below `u32::MAX`), the scale is at least one,
/// and the damage, if any, has area and lies inside the canvas.
pub proof fn lemma_canvas_wf_facts(canvas: &Canvas)
    requires
        canvas.wf(),
    ensures
        canvas.spec_stride() >= canvas.spec_width() * 4,
        canvas.spec_scale() >= 1,
        forall|x: int, y: int|
            0 <= x < canvas.spec_width() && 0 <= y < canvas.spec_height() ==> {
                &&& 0 <= #[trigger] canvas.spec_pixel_index(x, y)
                &&& canvas.spec_pixel_index(x, y) + 4 <= canvas.spec_bytes().len()
                &&& canvas.spec_pixel_index(x, y) + 4 <= u32::MAX
            },
        canvas.spec_damage() matches Some(d) ==> spec_damage_inside(d, canvas.spec_width(), canvas.spec_height()),
{
    assert forall|x: int, y: int| 0 <= x < canvas.spec_width() && 0 <= y < canvas.spec_height() implies {
        &&& 0 <= #[trigger] canvas.spec_pixel_index(x, y)
        &&& canvas.spec_pixel_index(x, y) + 4 <= canvas.spec_bytes().len()
        &&& canvas.spec_pixel_index(x, y) + 4 <= u32::MAX
    } by {
        lemma_pixel_fits(canvas.spec_width() as int, canvas.spec_height() as int, canvas.spec_stride() as int, x, y);
        assert(0 <= y * canvas.spec_stride()) by (nonlinear_arith)
            requires
                0 <= y,
                canvas.spec_stride() >= 0,
        ;
    }
}

/// Setting or blending one pixel changes only that pixel's bytes, and the
/// damage after it covers that pixel.
pub proof fn lemma_pixel_change_lies_in_damage(canvas: &Canvas, x: u32, y: u32, value: Seq<u8>, i: int)
    requires
        canvas.wf(),
        x < canvas.spec_width(),
        y < canvas.spec_height(),
        0 <= i < canvas.spec_bytes().len(),
        spec_with_pixel(canvas.spec_bytes(), canvas.spec_pixel_index(x as int, y as int), value)[i]
            != canvas.spec_bytes()[i],
    ensures
        canvas.spec_pixel_index(x as int, y as int) <= i < canvas.spec_pixel_index(x as int, y as int) + 4,
        canvas.spec_damage_after(DamageRect { x, y, width: 1, height: 1 }) matches Some(d)
            && d.spec_contains_point(x as int, y as int),
{
    let r = DamageRect { x, y, width: 1, height: 1 };
    lemma_damage_clamp_exact(r, canvas.spec_width(), canvas.spec_height(), x as int, y as int);
    let c = r.spec_clamp(canvas.spec_width(), canvas.spec_height())->0;
    match canvas.spec_damage() {
        Some(d) => lemma_damage_union_contains(d, c, x as int, y as int),
        None => {},
    }
}

} // verus!
