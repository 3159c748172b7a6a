//! Pixel coverage of rectangles with rounded corners.
use vstd::prelude::*;
use crate::geometry::{Bounds, CornerRadius};
use crate::num::{max_int, min_int, sat_sub};

verus! {

/// `a * b / 255`: the product of two coverages given on the 0..=255 scale.
pub open spec fn spec_multiply_coverage(a: u8, b: u8) -> u8 {
    ((a as int * b as int) / 255) as u8
}

pub fn multiply_coverage(a: u8, b: u8) -> (r: u8)
    ensures
        r == spec_multiply_coverage(a, b),
{
    proof {
        assert(a as int * b as int <= 255 * 255) by (nonlinear_arith)
            requires
                a <= 255,
                b <= 255,
        ;
    }
    ((a as u16 * b as u16) / 255) as u8
}

/// Whether the centre of pixel `(x, y)` lies inside the circle of `radius`
/// around the corner point `(center_x, center_y)`; a zero radius holds every pixel.
pub open spec fn spec_corner_contains(x: int, y: int, center_x: int, center_y: int, radius: int) -> bool {
    radius == 0 || {
        let dx = 2 * center_x - (2 * x + 1);
        let dy = 2 * center_y - (2 * y + 1);
        dx * dx + dy * dy <= (2 * radius) * (2 * radius)
    }
}

/// Whether the sub-pixel sample at `(sample_x, sample_y)` eighths inside pixel
/// `(x, y)` lies inside the corner circle.
pub open spec fn spec_sample_hit(
    x: int,
    y: int,
    center_x: int,
    center_y: int,
    radius: int,
    sample_x: int,
    sample_y: int,
) -> bool {
    let dx = x * 8 + sample_x - center_x * 8;
    let dy = y * 8 + sample_y - center_y * 8;
    dx * dx + dy * dy <= (radius * 8) * (radius * 8)
}

/// The sample positions, in eighths of a pixel, on each axis.
pub open spec fn spec_sample(i: int) -> int {
    2 * i + 1
}

/// How many of the first `n` samples of the row at `sample_y` hit the circle.
pub open spec fn spec_row_hits(x: int, y: int, cx: int, cy: int, radius: int, sample_y: int, n: int) -> int
    decreases n,
{
    if n <= 0 {
        0
    } else {
        spec_row_hits(x, y, cx, cy, radius, sample_y, n - 1) + if spec_sample_hit(
            x,
            y,
            cx,
            cy,
            radius,
            spec_sample(n - 1),
            sample_y,
        ) {
            1int
        } else {
            0int
        }
    }
}

/// How many samples of the first `n` rows hit the circle.
pub open spec fn spec_grid_hits(x: int, y: int, cx: int, cy: int, radius: int, n: int) -> int
    decreases n,
{
    if n <= 0 {
        0
    } else {
        spec_grid_hits(x, y, cx, cy, radius, n - 1) + spec_row_hits(
            x,
            y,
            cx,
            cy,
            radius,
            spec_sample(n - 1),
            4,
        )
    }
}

/// The coverage of pixel `(x, y)` by the corner circle: the share of a 4x4
/// grid of samples inside it, on the 0..=255 scale.
pub open spec fn spec_corner_coverage(x: int, y: int, cx: int, cy: int, radius: int) -> u8 {
    if radius == 0 {
        255
    } else {
        (spec_grid_hits(x, y, cx, cy, radius, 4) * 255 / 16) as u8
    }
}

proof fn lemma_row_hits_bounds(x: int, y: int, cx: int, cy: int, radius: int, sample_y: int, n: int)
    requires
        n >= 0,
    ensures
        0 <= spec_row_hits(x, y, cx, cy, radius, sample_y, n) <= n,
    decreases n,
{
    if n > 0 {
        lemma_row_hits_bounds(x, y, cx, cy, radius, sample_y, n - 1);
    }
}

proof fn lemma_grid_hits_bounds(x: int, y: int, cx: int, cy: int, radius: int, n: int)
    requires
        n >= 0,
    ensures
        0 <= spec_grid_hits(x, y, cx, cy, radius, n) <= 4 * n,
    decreases n,
{
    if n > 0 {
        lemma_grid_hits_bounds(x, y, cx, cy, radius, n - 1);
        lemma_row_hits_bounds(x, y, cx, cy, radius, spec_sample(n - 1), 4);
    }
}

fn corner_contains(x: u32, y: u32, center_x: u32, center_y: u32, radius: u32) -> (r: bool)
    ensures
        r == spec_corner_contains(x as int, y as int, center_x as int, center_y as int, radius as int),
{
    if radius == 0 {
        return true;
    }
    let center_x = center_x as i128 * 2;
    let center_y = center_y as i128 * 2;
    let pixel_x = x as i128 * 2 + 1;
    let pixel_y = y as i128 * 2 + 1;
    let radius = radius as i128 * 2;
    let dx = center_x - pixel_x;
    let dy = center_y - pixel_y;
    proof {
        assert(dx * dx <= 0x4_0000_0000_0000_0000_0000i128) by (nonlinear_arith)
            requires
                -0x2_0000_0001i128 <= dx <= 0x2_0000_0001i128,
        ;
        assert(dy * dy <= 0x4_0000_0000_0000_0000_0000i128) by (nonlinear_arith)
            requires
                -0x2_0000_0001i128 <= dy <= 0x2_0000_0001i128,
        ;
        assert(radius * radius <= 0x4_0000_0000_0000_0000_0000i128) by (nonlinear_arith)
            requires
                0 <= radius <= 0x2_0000_0000i128,
        ;
        assert(dx * dx >= 0) by (nonlinear_arith);
        assert(dy * dy >= 0) by (nonlinear_arith);
    }
    dx * dx + dy * dy <= radius * radius
}

fn sample_hit(x: u32, y: u32, center_x: u32, center_y: u32, radius: u32, sample_x: i128, sample_y: i128) -> (r: bool)
    requires
        0 <= sample_x < 8,
        0 <= sample_y < 8,
    ensures
        r == spec_sample_hit(
            x as int,
            y as int,
            center_x as int,
            center_y as int,
            radius as int,
            sample_x as int,
            sample_y as int,
        ),
{
    let dx = x as i128 * 8 + sample_x - center_x as i128 * 8;
    let dy = y as i128 * 8 + sample_y - center_y as i128 * 8;
    let scaled_radius = radius as i128 * 8;
    proof {
        assert(dx * dx <= 0x1_0000_0000_0000_0000_0000i128) by (nonlinear_arith)
            requires
                -0x8_0000_0000i128 <= dx <= 0x8_0000_0000i128,
        ;
        assert(dy * dy <= 0x1_0000_0000_0000_0000_0000i128) by (nonlinear_arith)
            requires
                -0x8_0000_0000i128 <= dy <= 0x8_0000_0000i128,
        ;
        assert(scaled_radius * scaled_radius <= 0x1_0000_0000_0000_0000_0000i128) by (nonlinear_arith)
            requires
                0 <= scaled_radius <= 0x8_0000_0000i128,
        ;
        assert(dx * dx >= 0) by (nonlinear_arith);
        assert(dy * dy >= 0) by (nonlinear_arith);
    }
    dx * dx + dy * dy <= scaled_radius * scaled_radius
}

fn corner_coverage(x: u32, y: u32, center_x: u32, center_y: u32, radius: u32) -> (r: u8)
    ensures
        r == spec_corner_coverage(x as int, y as int, center_x as int, center_y as int, radius as int),
{
    if radius == 0 {
        return 255;
    }
    let ghost (gx, gy, gcx, gcy, gr) = (x as int, y as int, center_x as int, center_y as int, radius as int);
    let samples: [i128; 4] = [1, 3, 5, 7];
    let mut covered: u32 = 0;
    let mut row: usize = 0;
    while row < 4
        invariant
            0 <= row <= 4,
            samples@ == seq![1i128, 3, 5, 7],
            covered == spec_grid_hits(gx, gy, gcx, gcy, gr, row as int),
            gx == x && gy == y && gcx == center_x && gcy == center_y && gr == radius,
        decreases 4 - row,
    {
        let sample_y = samples[row];
        let mut column: usize = 0;
        let ghost before = covered;
        proof {
            lemma_grid_hits_bounds(gx, gy, gcx, gcy, gr, row as int);
        }
        while column < 4
            invariant
                0 <= column <= 4,
                row < 4,
                samples@ == seq![1i128, 3, 5, 7],
                sample_y == spec_sample(row as int),
                before == spec_grid_hits(gx, gy, gcx, gcy, gr, row as int),
                0 <= before <= 4 * row,
                covered == before + spec_row_hits(gx, gy, gcx, gcy, gr, sample_y as int, column as int),
                gx == x && gy == y && gcx == center_x && gcy == center_y && gr == radius,
            decreases 4 - column,
        {
            let sample_x = samples[column];
            proof {
                lemma_row_hits_bounds(gx, gy, gcx, gcy, gr, sample_y as int, column as int);
            }
            if sample_hit(x, y, center_x, center_y, radius, sample_x, sample_y) {
                covered = covered + 1;
            }
            column = column + 1;
        }
        row = row + 1;
    }
    proof {
        lemma_grid_hits_bounds(gx, gy, gcx, gcy, gr, 4);
    }
    (covered * 255 / 16) as u8
}

/// Whether `(x, y)` lies in the cross-shaped region of the box that no corner reaches.
pub open spec fn spec_inside_cornerless_center(x: int, y: int, width: int, height: int, radii: CornerRadius) -> bool {
    let left = max_int(radii.top_left as int, radii.bottom_left as int);
    let right = sat_sub(width, max_int(radii.top_right as int, radii.bottom_right as int));
    let top = max_int(radii.top_left as int, radii.top_right as int);
    let bottom = sat_sub(height, max_int(radii.bottom_left as int, radii.bottom_right as int));
    (x >= left && x < right) || (y >= top && y < bottom)
}

fn inside_cornerless_center(x: u32, y: u32, width: u32, height: u32, radii: CornerRadius) -> (r: bool)
    ensures
        r == spec_inside_cornerless_center(x as int, y as int, width as int, height as int, radii),
{
    let left = if radii.top_left >= radii.bottom_left { radii.top_left } else { radii.bottom_left };
    let right = width.saturating_sub(
        if radii.top_right >= radii.bottom_right { radii.top_right } else { radii.bottom_right },
    );
    let top = if radii.top_left >= radii.top_right { radii.top_left } else { radii.top_right };
    let bottom = height.saturating_sub(
        if radii.bottom_left >= radii.bottom_right { radii.bottom_left } else { radii.bottom_right },
    );
    (x >= left && x < right) || (y >= top && y < bottom)
}

/// Which corner circle, if any, decides the pixel `(x, y)` of a `width` by
/// `height` box with the (already clamped) `radii`: its centre and radius.
pub open spec fn spec_deciding_corner(x: int, y: int, width: int, height: int, radii: CornerRadius) -> Option<(int, int, int)> {
    if x < radii.top_left && y < radii.top_left {
        Some((radii.top_left as int, radii.top_left as int, radii.top_left as int))
    } else if x >= sat_sub(width, radii.top_right as int) && y < radii.top_right {
        Some((sat_sub(width, radii.top_right as int), radii.top_right as int, radii.top_right as int))
    } else if x >= sat_sub(width, radii.bottom_right as int) && y >= sat_sub(height, radii.bottom_right as int) {
        Some((
            sat_sub(width, radii.bottom_right as int),
            sat_sub(height, radii.bottom_right as int),
            radii.bottom_right as int,
        ))
    } else if x < radii.bottom_left && y >= sat_sub(height, radii.bottom_left as int) {
        Some((radii.bottom_left as int, sat_sub(height, radii.bottom_left as int), radii.bottom_left as int))
    } else {
        None
    }
}

/// Coverage (0..=255) of the pixel `(x, y)` by a `width` by `height` box whose
/// corners are rounded with `radii`, measured with 16 samples per corner pixel.
pub open spec fn spec_rounded_rect_coverage(x: int, y: int, width: int, height: int, radii: CornerRadius) -> u8 {
    if x >= width || y >= height {
        0
    } else {
        let radii = radii.spec_clamp_to(width as u32, height as u32);
        if radii.spec_is_zero() || spec_inside_cornerless_center(x, y, width, height, radii) {
            255
        } else {
            match spec_deciding_corner(x, y, width, height, radii) {
                Some((cx, cy, radius)) => spec_corner_coverage(x, y, cx, cy, radius),
                None => 255,
            }
        }
    }
}

/// Whether the centre of pixel `(x, y)` lies inside a `width` by `height` box
/// whose corners are rounded with `radii`.
pub open spec fn spec_rounded_rect_contains(x: int, y: int, width: int, height: int, radii: CornerRadius) -> bool {
    if x >= width || y >= height {
        false
    } else {
        let radii = radii.spec_clamp_to(width as u32, height as u32);
        if radii.spec_is_zero() || spec_inside_cornerless_center(x, y, width, height, radii) {
            true
        } else {
            match spec_deciding_corner(x, y, width, height, radii) {
                Some((cx, cy, radius)) => spec_corner_contains(x, y, cx, cy, radius),
                None => true,
            }
        }
    }
}

pub fn rounded_rect_coverage(x: u32, y: u32, width: u32, height: u32, radii: CornerRadius) -> (r: u8)
    ensures
        r == spec_rounded_rect_coverage(x as int, y as int, width as int, height as int, radii),
{
    if x >= width || y >= height {
        return 0;
    }
    let radii = radii.clamp_to(width, height);
    if radii.is_zero() || inside_cornerless_center(x, y, width, height, radii) {
        return 255;
    }
    if x < radii.top_left && y < radii.top_left {
        return corner_coverage(x, y, radii.top_left, radii.top_left, radii.top_left);
    }
    if x >= width.saturating_sub(radii.top_right) && y < radii.top_right {
        return corner_coverage(x, y, width.saturating_sub(radii.top_right), radii.top_right, radii.top_right);
    }
    if x >= width.saturating_sub(radii.bottom_right) && y >= height.saturating_sub(radii.bottom_right) {
        return corner_coverage(
            x,
            y,
            width.saturating_sub(radii.bottom_right),
            height.saturating_sub(radii.bottom_right),
            radii.bottom_right,
        );
    }
    if x < radii.bottom_left && y >= height.saturating_sub(radii.bottom_left) {
        return corner_coverage(
            x,
            y,
            radii.bottom_left,
            height.saturating_sub(radii.bottom_left),
            radii.bottom_left,
        );
    }
    255
}

pub fn rounded_rect_contains(x: u32, y: u32, width: u32, height: u32, radii: CornerRadius) -> (r: bool)
    ensures
        r == spec_rounded_rect_contains(x as int, y as int, width as int, height as int, radii),
{
    if x >= width || y >= height {
        return false;
    }
    let radii = radii.clamp_to(width, height);
    if radii.is_zero() || inside_cornerless_center(x, y, width, height, radii) {
        return true;
    }
    if x < radii.top_left && y < radii.top_left {
        return corner_contains(x, y, radii.top_left, radii.top_left, radii.top_left);
    }
    if x >= width.saturating_sub(radii.top_right) && y < radii.top_right {
        return corner_contains(x, y, width.saturating_sub(radii.top_right), radii.top_right, radii.top_right);
    }
    if x >= width.saturating_sub(radii.bottom_right) && y >= height.saturating_sub(radii.bottom_right) {
        return corner_contains(
            x,
            y,
            width.saturating_sub(radii.bottom_right),
            height.saturating_sub(radii.bottom_right),
            radii.bottom_right,
        );
    }
    if x < radii.bottom_left && y >= height.saturating_sub(radii.bottom_left) {
        return corner_contains(
            x,
            y,
            radii.bottom_left,
            height.saturating_sub(radii.bottom_left),
            radii.bottom_left,
        );
    }
    true
}

/// Coverage with or without anti-aliasing: without it, a pixel is either
/// fully covered (255) or not at all (0), by whether its centre is inside.
pub open spec fn spec_rounded_rect_coverage_with_antialias(
    x: int,
    y: int,
    width: int,
    height: int,
    radii: CornerRadius,
    anti_alias: bool,
) -> u8 {
    if anti_alias {
        spec_rounded_rect_coverage(x, y, width, height, radii)
    } else if spec_rounded_rect_contains(x, y, width, height, radii) {
        255
    } else {
        0
    }
}

pub fn rounded_rect_coverage_with_antialias(
    x: u32,
    y: u32,
    width: u32,
    height: u32,
    radii: CornerRadius,
    anti_alias: bool,
) -> (r: u8)
    ensures
        r == spec_rounded_rect_coverage_with_antialias(x as int, y as int, width as int, height as int, radii, anti_alias),
{
    if anti_alias {
        rounded_rect_coverage(x, y, width, height, radii)
    } else if rounded_rect_contains(x, y, width, height, radii) {
        255
    } else {
        0
    }
}

/// Coverage of the absolute pixel `(x, y)` by the rounded box `bounds`.
pub open spec fn spec_rounded_rect_bounds_coverage(bounds: Bounds, x: int, y: int, radii: CornerRadius, anti_alias: bool) -> u8 {
    if x < bounds.x || y < bounds.y || x >= bounds.spec_right() || y >= bounds.spec_bottom() {
        0
    } else {
        spec_rounded_rect_coverage_with_antialias(
            x - bounds.x,
            y - bounds.y,
            bounds.width as int,
            bounds.height as int,
            radii,
            anti_alias,
        )
    }
}

pub fn rounded_rect_bounds_coverage_with_antialias(
    bounds: Bounds,
    x: u32,
    y: u32,
    radii: CornerRadius,
    anti_alias: bool,
) -> (r: u8)
    ensures
        r == spec_rounded_rect_bounds_coverage(bounds, x as int, y as int, radii, anti_alias),
{
    if x < bounds.x || y < bounds.y || x >= bounds.right() || y >= bounds.bottom() {
        return 0;
    }
    rounded_rect_coverage_with_antialias(x - bounds.x, y - bounds.y, bounds.width, bounds.height, radii, anti_alias)
}

proof fn lemma_corner_mirror(x: int, y: int, cx: int, cy: int, w: int, h: int, radius: int)
    ensures
        spec_corner_contains(x, y, cx, cy, radius) == spec_corner_contains(w - 1 - x, y, w - cx, cy, radius),
        spec_corner_contains(x, y, cx, cy, radius) == spec_corner_contains(x, h - 1 - y, cx, h - cy, radius),
{
    let dx = 2 * cx - (2 * x + 1);
    let dy = 2 * cy - (2 * y + 1);
    let mdx = 2 * (w - cx) - (2 * (w - 1 - x) + 1);
    let mdy = 2 * (h - cy) - (2 * (h - 1 - y) + 1);
    assert(mdx * mdx == dx * dx) by (nonlinear_arith)
        requires
            mdx == -dx,
    ;
    assert(mdy * mdy == dy * dy) by (nonlinear_arith)
        requires
            mdy == -dy,
    ;
}

/// A box with the same radius at every corner is symmetric: mirroring a
/// pixel left to right or top to bottom does not change whether it is
/// inside, and no pixel outside the box is inside.
pub proof fn lemma_rounded_rect_mirror(x: u32, y: u32, width: u32, height: u32, radius: u32)
    ensures
        (x >= width || y >= height) ==> !spec_rounded_rect_contains(
            x as int,
            y as int,
            width as int,
            height as int,
            CornerRadius { top_left: radius, top_right: radius, bottom_right: radius, bottom_left: radius },
        ),
        (x < width && y < height) ==> {
            let rr = CornerRadius { top_left: radius, top_right: radius, bottom_right: radius, bottom_left: radius };
            &&& spec_rounded_rect_contains(x as int, y as int, width as int, height as int, rr)
                == spec_rounded_rect_contains(width - 1 - x, y as int, width as int, height as int, rr)
            &&& spec_rounded_rect_contains(x as int, y as int, width as int, height as int, rr)
                == spec_rounded_rect_contains(x as int, height - 1 - y, width as int, height as int, rr)
        },
{
    if x < width && y < height {
        let rr = CornerRadius { top_left: radius, top_right: radius, bottom_right: radius, bottom_left: radius };
        let c = rr.spec_clamp_to(width, height);
        let r = c.top_left as int;
        let w = width as int;
        let h = height as int;
        assert(2 * r <= w && 2 * r <= h);
        let xi = x as int;
        let yi = y as int;
        lemma_corner_mirror(xi, yi, r, r, w, h, r);
        lemma_corner_mirror(xi, yi, w - r, r, w, h, r);
        lemma_corner_mirror(xi, yi, w - r, h - r, w, h, r);
        lemma_corner_mirror(xi, yi, r, h - r, w, h, r);
    }
}

proof fn lemma_sample_mirror(x: int, y: int, cx: int, cy: int, w: int, h: int, radius: int, sx: int, sy: int)
    ensures
        spec_sample_hit(w - 1 - x, y, w - cx, cy, radius, sx, sy) == spec_sample_hit(x, y, cx, cy, radius, 8 - sx, sy),
        spec_sample_hit(x, h - 1 - y, cx, h - cy, radius, sx, sy) == spec_sample_hit(x, y, cx, cy, radius, sx, 8 - sy),
{
    let dx = x * 8 + (8 - sx) - cx * 8;
    let mdx = (w - 1 - x) * 8 + sx - (w - cx) * 8;
    let dy = y * 8 + (8 - sy) - cy * 8;
    let mdy = (h - 1 - y) * 8 + sy - (h - cy) * 8;
    assert(mdx == -dx);
    assert(mdy == -dy);
    assert(mdx * mdx == dx * dx) by (nonlinear_arith)
        requires
            mdx == -dx,
    ;
    assert(mdy * mdy == dy * dy) by (nonlinear_arith)
        requires
            mdy == -dy,
    ;
}

proof fn lemma_row_hits_mirror(x: int, y: int, cx: int, cy: int, w: int, h: int, radius: int, sy: int)
    ensures
        spec_row_hits(w - 1 - x, y, w - cx, cy, radius, sy, 4) == spec_row_hits(x, y, cx, cy, radius, sy, 4),
        spec_row_hits(x, h - 1 - y, cx, h - cy, radius, sy, 4) == spec_row_hits(x, y, cx, cy, radius, 8 - sy, 4),
{
    reveal_with_fuel(spec_row_hits, 5);
    lemma_sample_mirror(x, y, cx, cy, w, h, radius, 1, sy);
    lemma_sample_mirror(x, y, cx, cy, w, h, radius, 3, sy);
    lemma_sample_mirror(x, y, cx, cy, w, h, radius, 5, sy);
    lemma_sample_mirror(x, y, cx, cy, w, h, radius, 7, sy);
}

proof fn lemma_corner_coverage_mirror(x: int, y: int, cx: int, cy: int, w: int, h: int, radius: int)
    ensures
        spec_corner_coverage(x, y, cx, cy, radius) == spec_corner_coverage(w - 1 - x, y, w - cx, cy, radius),
        spec_corner_coverage(x, y, cx, cy, radius) == spec_corner_coverage(x, h - 1 - y, cx, h - cy, radius),
{
    reveal_with_fuel(spec_grid_hits, 5);
    lemma_row_hits_mirror(x, y, cx, cy, w, h, radius, 1);
    lemma_row_hits_mirror(x, y, cx, cy, w, h, radius, 3);
    lemma_row_hits_mirror(x, y, cx, cy, w, h, radius, 5);
    lemma_row_hits_mirror(x, y, cx, cy, w, h, radius, 7);
    assert(spec_grid_hits(w - 1 - x, y, w - cx, cy, radius, 4) == spec_grid_hits(x, y, cx, cy, radius, 4));
    assert(spec_grid_hits(x, h - 1 - y, cx, h - cy, radius, 4) == spec_grid_hits(x, y, cx, cy, radius, 4));
}

/// A box with the same radius at every corner has mirror-symmetric
/// coverage: mirroring a pixel left to right or top to bottom gives it the
/// same coverage, so each corner is rounded as the others are.
pub proof fn lemma_rounded_rect_coverage_mirror(x: u32, y: u32, width: u32, height: u32, radius: u32)
    requires
        x < width,
        y < height,
    ensures
        ({
            let rr = CornerRadius { top_left: radius, top_right: radius, bottom_right: radius, bottom_left: radius };
            &&& spec_rounded_rect_coverage(x as int, y as int, width as int, height as int, rr)
                == spec_rounded_rect_coverage(width - 1 - x, y as int, width as int, height as int, rr)
            &&& spec_rounded_rect_coverage(x as int, y as int, width as int, height as int, rr)
                == spec_rounded_rect_coverage(x as int, height - 1 - y, width as int, height as int, rr)
        }),
{
    let rr = CornerRadius { top_left: radius, top_right: radius, bottom_right: radius, bottom_left: radius };
    let c = rr.spec_clamp_to(width, height);
    let r = c.top_left as int;
    let w = width as int;
    let h = height as int;
    assert(2 * r <= w && 2 * r <= h);
    let xi = x as int;
    let yi = y as int;
    lemma_corner_coverage_mirror(xi, yi, r, r, w, h, r);
    lemma_corner_coverage_mirror(xi, yi, w - r, r, w, h, r);
    lemma_corner_coverage_mirror(xi, yi, w - r, h - r, w, h, r);
    lemma_corner_coverage_mirror(xi, yi, r, h - r, w, h, r);
}

proof fn lemma_corner_pixel_partly_outside(radius: int)
    requires
        radius >= 1,
    ensures
        spec_corner_coverage(0, 0, radius, radius, radius) < 255,
{
    reveal_with_fuel(spec_row_hits, 5);
    reveal_with_fuel(spec_grid_hits, 5);
    let d = 1 - radius * 8;
    assert(d * d + d * d > (radius * 8) * (radius * 8)) by (nonlinear_arith)
        requires
            d == 1 - radius * 8,
            radius >= 1,
    ;
    assert(!spec_sample_hit(0, 0, radius, radius, radius, 1, 1));
    lemma_row_hits_bounds(0, 0, radius, radius, radius, 1, 3);
    lemma_row_hits_bounds(0, 0, radius, radius, radius, 3, 4);
    lemma_row_hits_bounds(0, 0, radius, radius, radius, 5, 4);
    lemma_row_hits_bounds(0, 0, radius, radius, radius, 7, 4);
    let hits = spec_grid_hits(0, 0, radius, radius, radius, 4);
    assert(0 <= hits <= 15);
    assert(hits * 255 / 16 < 255) by (nonlinear_arith)
        requires
            0 <= hits <= 15,
    ;
}

/// The corners of a box are rounded: with the same radius of at least one
/// pixel at every corner, on a box of at least two by two pixels, each of
/// the four corner pixels is only partly covered.
pub proof fn lemma_rounded_rect_corner_pixels_are_cut(width: u32, height: u32, radius: u32)
    requires
        radius >= 1,
        width >= 2,
        height >= 2,
    ensures
        ({
            let rr = CornerRadius { top_left: radius, top_right: radius, bottom_right: radius, bottom_left: radius };
            &&& spec_rounded_rect_coverage(0, 0, width as int, height as int, rr) < 255
            &&& spec_rounded_rect_coverage(width - 1, 0, width as int, height as int, rr) < 255
            &&& spec_rounded_rect_coverage(0, height - 1, width as int, height as int, rr) < 255
            &&& spec_rounded_rect_coverage(width - 1, height - 1, width as int, height as int, rr) < 255
        }),
{
    let rr = CornerRadius { top_left: radius, top_right: radius, bottom_right: radius, bottom_left: radius };
    let c = rr.spec_clamp_to(width, height);
    assert(c.top_left >= 1);
    lemma_corner_pixel_partly_outside(c.top_left as int);
    lemma_rounded_rect_coverage_mirror(0, 0, width, height, radius);
    lemma_rounded_rect_coverage_mirror(0, (height - 1) as u32, width, height, radius);
}


/// Only the corners of a box are rounded: with the same radius at every
/// corner (held to half the shorter side), every pixel of a column or row
/// that no corner reaches is fully covered, and no pixel outside the box is
/// covered at all.
pub proof fn lemma_rounded_rect_edges_are_straight(x: u32, y: u32, width: u32, height: u32, radius: u32)
    ensures
        ({
            let rr = CornerRadius { top_left: radius, top_right: radius, bottom_right: radius, bottom_left: radius };
            let r = min_int(radius as int, min_int(width as int, height as int) / 2);
            let coverage = spec_rounded_rect_coverage(x as int, y as int, width as int, height as int, rr);
            &&& (x >= width || y >= height) ==> coverage == 0
            &&& (x < width && y < height && ((r <= x && x < width - r) || (r <= y && y < height - r))) ==> coverage == 255
        }),
{
}

} // verus!
