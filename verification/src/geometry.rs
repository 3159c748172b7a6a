//! Rectangles, corner radii and clip regions in integer pixels.
use vstd::prelude::*;
use crate::layout::Spacing;
use crate::num::{max_int, min_int, sat_add, sat_mul, sat_sub, sat_add_u32, sat_sub_u32, min_u32, max_u32, sat_mul_u32};
use crate::shapes::{
    rounded_rect_contains, rounded_rect_coverage, spec_rounded_rect_contains,
    spec_rounded_rect_coverage,
};

verus! {

/// An axis-aligned rectangle; `right` and `bottom` saturate at `u32::MAX`.
#[derive(Clone, Copy, Debug, PartialEq, Eq, Structural)]
pub struct Bounds {
    pub x: u32,
    pub y: u32,
    pub width: u32,
    pub height: u32,
}

impl Default for Bounds {
    fn default() -> (r: Self)
        ensures
            r == (Bounds { x: 0, y: 0, width: 0, height: 0 }),
    {
        Bounds { x: 0, y: 0, width: 0, height: 0 }
    }
}

/// `value` moved by the signed `offset`, saturating at both ends of `u32`.
pub open spec fn spec_translate_u32(value: u32, offset: i32) -> u32 {
    if offset < 0 {
        sat_sub(value as int, -(offset as int)) as u32
    } else {
        sat_add(value as int, offset as int) as u32
    }
}

fn translate_u32(value: u32, offset: i32) -> (r: u32)
    ensures
        r == spec_translate_u32(value, offset),
{
    if offset < 0 {
        let magnitude: u32 = if offset == i32::MIN { 0x8000_0000u32 } else { (-offset) as u32 };
        value.saturating_sub(magnitude)
    } else {
        value.saturating_add(offset as u32)
    }
}

impl Bounds {
    pub open spec fn spec_right(self) -> int {
        sat_add(self.x as int, self.width as int)
    }

    pub open spec fn spec_bottom(self) -> int {
        sat_add(self.y as int, self.height as int)
    }

    /// The smallest rectangle that holds both (in saturated coordinates).
    pub open spec fn spec_union(self, other: Self) -> Self {
        let x = min_int(self.x as int, other.x as int);
        let y = min_int(self.y as int, other.y as int);
        let right = max_int(self.spec_right(), other.spec_right());
        let bottom = max_int(self.spec_bottom(), other.spec_bottom());
        Bounds { x: x as u32, y: y as u32, width: sat_sub(right, x) as u32, height: sat_sub(bottom, y) as u32 }
    }

    /// The overlap of two rectangles, if it is not empty.
    pub open spec fn spec_intersect(self, other: Self) -> Option<Self> {
        let x = max_int(self.x as int, other.x as int);
        let y = max_int(self.y as int, other.y as int);
        let right = min_int(self.spec_right(), other.spec_right());
        let bottom = min_int(self.spec_bottom(), other.spec_bottom());
        let width = sat_sub(right, x);
        let height = sat_sub(bottom, y);
        if width > 0 && height > 0 {
            Some(Bounds { x: x as u32, y: y as u32, width: width as u32, height: height as u32 })
        } else {
            None
        }
    }

    /// The rectangle shrunk by `spacing` on each side (saturating).
    pub open spec fn spec_inset(self, spacing: Spacing) -> Self {
        let horizontal = sat_add(spacing.left as int, spacing.right as int);
        let vertical = sat_add(spacing.top as int, spacing.bottom as int);
        Bounds {
            x: sat_add(self.x as int, spacing.left as int) as u32,
            y: sat_add(self.y as int, spacing.top as int) as u32,
            width: sat_sub(self.width as int, horizontal) as u32,
            height: sat_sub(self.height as int, vertical) as u32,
        }
    }

    /// Whether `(x, y)` lies inside the rectangle.
    pub open spec fn spec_contains_point(self, x: int, y: int) -> bool {
        self.x <= x < self.spec_right() && self.y <= y < self.spec_bottom()
    }

    pub fn new(x: u32, y: u32, width: u32, height: u32) -> (r: Self)
        ensures
            r == (Bounds { x, y, width, height }),
    {
        Bounds { x, y, width, height }
    }

    pub fn right(self) -> (r: u32)
        ensures
            r == self.spec_right(),
    {
        sat_add_u32(self.x, self.width)
    }

    pub fn bottom(self) -> (r: u32)
        ensures
            r == self.spec_bottom(),
    {
        sat_add_u32(self.y, self.height)
    }

    pub fn union(self, other: Self) -> (r: Self)
        ensures
            r == self.spec_union(other),
    {
        let x = min_u32(self.x, other.x);
        let y = min_u32(self.y, other.y);
        let right = max_u32(self.right(), other.right());
        let bottom = max_u32(self.bottom(), other.bottom());
        Bounds { x, y, width: sat_sub_u32(right, x), height: sat_sub_u32(bottom, y) }
    }

    pub fn translate(self, x: i32, y: i32) -> (r: Self)
        ensures
            r == (Bounds {
                x: spec_translate_u32(self.x, x),
                y: spec_translate_u32(self.y, y),
                width: self.width,
                height: self.height,
            }),
    {
        Bounds { x: translate_u32(self.x, x), y: translate_u32(self.y, y), width: self.width, height: self.height }
    }

    pub fn inset(self, spacing: Spacing) -> (r: Self)
        ensures
            r == self.spec_inset(spacing),
    {
        let horizontal = sat_add_u32(spacing.left, spacing.right);
        let vertical = sat_add_u32(spacing.top, spacing.bottom);
        Bounds {
            x: sat_add_u32(self.x, spacing.left),
            y: sat_add_u32(self.y, spacing.top),
            width: sat_sub_u32(self.width, horizontal),
            height: sat_sub_u32(self.height, vertical),
        }
    }

    pub fn intersect(self, other: Self) -> (r: Option<Self>)
        ensures
            r == self.spec_intersect(other),
    {
        let x = max_u32(self.x, other.x);
        let y = max_u32(self.y, other.y);
        let right = min_u32(self.right(), other.right());
        let bottom = min_u32(self.bottom(), other.bottom());
        let width = sat_sub_u32(right, x);
        let height = sat_sub_u32(bottom, y);
        if width > 0 && height > 0 {
            Some(Bounds { x, y, width, height })
        } else {
            None
        }
    }
}

/// The union of two rectangles does not depend on their order.
pub proof fn lemma_bounds_union_commutes(a: Bounds, b: Bounds)
    ensures
        a.spec_union(b) == b.spec_union(a),
{
}

/// The union of two rectangles holds every point of each of them.
pub proof fn lemma_bounds_union_contains(a: Bounds, b: Bounds, x: int, y: int)
    requires
        a.spec_contains_point(x, y) || b.spec_contains_point(x, y),
    ensures
        a.spec_union(b).spec_contains_point(x, y),
{
}

/// A point lies in the intersection of two rectangles exactly when it lies in both.
pub proof fn lemma_bounds_intersect_exact(a: Bounds, b: Bounds, x: int, y: int)
    ensures
        (a.spec_contains_point(x, y) && b.spec_contains_point(x, y)) <==> (match a.spec_intersect(b) {
            Some(i) => i.spec_contains_point(x, y),
            None => false,
        }),
{
}

/// The overlap of two rectangles, when there is one, is not empty and lies
/// in both.
pub proof fn lemma_intersect_within(a: Bounds, b: Bounds)
    ensures
        a.spec_intersect(b) matches Some(i) ==> {
            &&& i.width > 0 && i.height > 0
            &&& i.x + i.width <= u32::MAX && i.y + i.height <= u32::MAX
            &&& a.x <= i.x && b.x <= i.x && a.y <= i.y && b.y <= i.y
            &&& i.spec_right() <= a.spec_right() && i.spec_right() <= b.spec_right()
            &&& i.spec_bottom() <= a.spec_bottom() && i.spec_bottom() <= b.spec_bottom()
        },
{
}

/// Per-corner radii of a rounded rectangle.
#[derive(Clone, Copy, Debug, PartialEq, Eq, Structural)]
pub struct CornerRadius {
    pub top_left: u32,
    pub top_right: u32,
    pub bottom_right: u32,
    pub bottom_left: u32,
}


impl Default for CornerRadius {
    fn default() -> (r: Self)
        ensures
            r == CornerRadius::spec_zero(),
    {
        CornerRadius::zero()
    }
}

impl CornerRadius {
    pub open spec fn spec_zero() -> Self {
        CornerRadius { top_left: 0, top_right: 0, bottom_right: 0, bottom_left: 0 }
    }

    /// Square corners.
    pub fn zero() -> (r: Self)
        ensures
            r == Self::spec_zero(),
    {
        CornerRadius { top_left: 0, top_right: 0, bottom_right: 0, bottom_left: 0 }
    }

    pub open spec fn spec_is_zero(self) -> bool {
        self.top_left == 0 && self.top_right == 0 && self.bottom_right == 0 && self.bottom_left == 0
    }

    /// Every radius limited to half of the shorter side.
    pub open spec fn spec_clamp_to(self, width: u32, height: u32) -> Self {
        let max = min_int(width as int, height as int) / 2;
        CornerRadius {
            top_left: min_int(self.top_left as int, max) as u32,
            top_right: min_int(self.top_right as int, max) as u32,
            bottom_right: min_int(self.bottom_right as int, max) as u32,
            bottom_left: min_int(self.bottom_left as int, max) as u32,
        }
    }

    /// The radii of the box inside `spacing`: each shrinks by the larger
    /// of the two spacings that meet at its corner.
    pub open spec fn spec_inset(self, spacing: Spacing) -> Self {
        CornerRadius {
            top_left: sat_sub(self.top_left as int, max_int(spacing.top as int, spacing.left as int)) as u32,
            top_right: sat_sub(self.top_right as int, max_int(spacing.top as int, spacing.right as int)) as u32,
            bottom_right: sat_sub(self.bottom_right as int, max_int(spacing.bottom as int, spacing.right as int)) as u32,
            bottom_left: sat_sub(self.bottom_left as int, max_int(spacing.bottom as int, spacing.left as int)) as u32,
        }
    }

    pub open spec fn spec_scaled(self, scale: u32) -> Self {
        CornerRadius {
            top_left: sat_mul(self.top_left as int, scale as int) as u32,
            top_right: sat_mul(self.top_right as int, scale as int) as u32,
            bottom_right: sat_mul(self.bottom_right as int, scale as int) as u32,
            bottom_left: sat_mul(self.bottom_left as int, scale as int) as u32,
        }
    }

    pub fn all(radius: u32) -> (r: Self)
        ensures
            r == (CornerRadius { top_left: radius, top_right: radius, bottom_right: radius, bottom_left: radius }),
    {
        CornerRadius { top_left: radius, top_right: radius, bottom_right: radius, bottom_left: radius }
    }

    pub fn is_zero(self) -> (r: bool)
        ensures
            r == self.spec_is_zero(),
    {
        self.top_left == 0 && self.top_right == 0 && self.bottom_right == 0 && self.bottom_left == 0
    }

    pub fn inset(self, spacing: Spacing) -> (r: Self)
        ensures
            r == self.spec_inset(spacing),
    {
        CornerRadius {
            top_left: sat_sub_u32(self.top_left, max_u32(spacing.top, spacing.left)),
            top_right: sat_sub_u32(self.top_right, max_u32(spacing.top, spacing.right)),
            bottom_right: sat_sub_u32(self.bottom_right, max_u32(spacing.bottom, spacing.right)),
            bottom_left: sat_sub_u32(self.bottom_left, max_u32(spacing.bottom, spacing.left)),
        }
    }

    pub fn scaled(self, scale: u32) -> (r: Self)
        ensures
            r == self.spec_scaled(scale),
    {
        CornerRadius {
            top_left: sat_mul_u32(self.top_left, scale),
            top_right: sat_mul_u32(self.top_right, scale),
            bottom_right: sat_mul_u32(self.bottom_right, scale),
            bottom_left: sat_mul_u32(self.bottom_left, scale),
        }
    }

    pub fn clamp_to(self, width: u32, height: u32) -> (r: Self)
        ensures
            r == self.spec_clamp_to(width, height),
    {
        let max = min_u32(width, height) / 2;
        CornerRadius {
            top_left: min_u32(self.top_left, max),
            top_right: min_u32(self.top_right, max),
            bottom_right: min_u32(self.bottom_right, max),
            bottom_left: min_u32(self.bottom_left, max),
        }
    }
}

/// One rounded rectangle that a clip region is limited to.
#[derive(Clone, Copy, Debug, PartialEq, Eq, Structural)]
pub struct RoundedClip {
    pub rect: Bounds,
    pub radii: CornerRadius,
}

impl RoundedClip {
    /// An empty rounded rectangle, used to fill unused slots.
    pub fn empty() -> (r: Self)
        ensures
            r == (RoundedClip { rect: Bounds { x: 0, y: 0, width: 0, height: 0 }, radii: CornerRadius::spec_zero() }),
    {
        RoundedClip { rect: Bounds::new(0, 0, 0, 0), radii: CornerRadius::zero() }
    }
}

/// How many rounded rectangles a clip keeps; further ones replace the last.
pub const MAX_ROUNDED_CLIPS: usize = 4;

/// A clip region: a rectangle, further limited by up to four rounded rectangles.
#[derive(Clone, Copy, Debug, PartialEq, Eq)]
pub struct Clip {
    bounds: Bounds,
    rounded: [RoundedClip; 4],
    rounded_len: u8,
}

impl Clip {
    /// Every kept rounded rectangle has rounded corners, is not empty, and
    /// holds the clip rectangle, which is not empty once one is kept.
    #[verifier::type_invariant]
    spec fn wf(self) -> bool {
        &&& self.rounded_len <= 4
        &&& forall|i: int| 0 <= i < self.rounded_len ==> Self::spec_encloses(#[trigger] self.rounded@[i], self.bounds)
        &&& self.rounded_len > 0 ==> {
            &&& self.bounds.width > 0 && self.bounds.height > 0
            &&& self.bounds.x + self.bounds.width <= u32::MAX
            &&& self.bounds.y + self.bounds.height <= u32::MAX
        }
    }

    /// `clip` is a proper rounded rectangle that holds `bounds`.
    pub open spec fn spec_encloses(clip: RoundedClip, bounds: Bounds) -> bool {
        &&& !clip.radii.spec_is_zero()
        &&& clip.rect.width > 0
        &&& clip.rect.height > 0
        &&& clip.rect.x <= bounds.x
        &&& clip.rect.y <= bounds.y
        &&& bounds.spec_right() <= clip.rect.spec_right()
        &&& bounds.spec_bottom() <= clip.rect.spec_bottom()
    }

    /// The clip rectangle.
    pub closed spec fn spec_bounds(self) -> Bounds {
        self.bounds
    }

    /// The rounded rectangles that further limit the clip, oldest first.
    pub closed spec fn spec_rounded(self) -> Seq<RoundedClip> {
        self.rounded@.take(self.rounded_len as int)
    }

    /// Whether `(x, y)` lies in the clip region.
    pub open spec fn spec_contains(self, x: int, y: int) -> bool {
        &&& self.spec_bounds().spec_contains_point(x, y)
        &&& forall|i: int|
            0 <= i < self.spec_rounded().len() ==> {
                let clip = #[trigger] self.spec_rounded()[i];
                x >= clip.rect.x && y >= clip.rect.y && spec_rounded_rect_contains(
                    x - clip.rect.x,
                    y - clip.rect.y,
                    clip.rect.width as int,
                    clip.rect.height as int,
                    clip.radii,
                )
            }
    }

    /// The rounded list after one more rounded rectangle is added: appended
    /// while there is room, otherwise it replaces the last one.
    pub open spec fn spec_push_rounded(rounded: Seq<RoundedClip>, clip: RoundedClip) -> Seq<RoundedClip> {
        if rounded.len() < 4 {
            rounded.push(clip)
        } else {
            rounded.take(3).push(clip)
        }
    }

    pub fn rect(bounds: Bounds) -> (r: Self)
        ensures
            r.spec_bounds() == bounds,
            r.spec_rounded() == Seq::<RoundedClip>::empty(),
    {
        let e = RoundedClip::empty();
        let r = Clip { bounds, rounded: [e, e, e, e], rounded_len: 0 };
        assert(r.rounded@.take(0) =~= Seq::<RoundedClip>::empty());
        r
    }

    pub fn bounds(self) -> (r: Bounds)
        ensures
            r == self.spec_bounds(),
    {
        self.bounds
    }

    pub fn rounded_len(self) -> (r: usize)
        ensures
            r == self.spec_rounded().len(),
    {
        proof {
            use_type_invariant(&self);
        }
        self.rounded_len as usize
    }

    pub fn rounded_at(self, index: usize) -> (r: RoundedClip)
        requires
            index < self.spec_rounded().len(),
        ensures
            r == self.spec_rounded()[index as int],
    {
        proof {
            use_type_invariant(&self);
        }
        self.rounded[index]
    }

    /// Whether the clip is a plain rectangle.
    pub fn is_rect(self) -> (r: bool)
        ensures
            r == (self.spec_rounded().len() == 0),
    {
        proof {
            use_type_invariant(&self);
        }
        self.rounded_len == 0
    }

    pub fn intersect_bounds(self, bounds: Bounds) -> (r: Option<Self>)
        ensures
            match self.spec_bounds().spec_intersect(bounds) {
                Some(b) => r matches Some(c) && c.spec_bounds() == b && c.spec_rounded() == self.spec_rounded(),
                None => r is None,
            },
    {
        proof {
            use_type_invariant(&self);
        }
        match self.bounds.intersect(bounds) {
            Some(b) => {
                proof {
                    lemma_intersect_within(self.bounds, bounds);
                    assert forall|i: int| 0 <= i < self.rounded_len implies Self::spec_encloses(
                        #[trigger] self.rounded@[i],
                        b,
                    ) by {
                        assert(Self::spec_encloses(self.rounded@[i], self.bounds));
                    }
                }
                Some(Clip { bounds: b, rounded: self.rounded, rounded_len: self.rounded_len })
            },
            None => None,
        }
    }

    pub fn with_rounded_rect(self, rect: Bounds, radii: CornerRadius) -> (r: Option<Self>)
        ensures
            match self.spec_bounds().spec_intersect(rect) {
                Some(b) => r matches Some(c) && c.spec_bounds() == b && c.spec_rounded() == (
                    if radii.spec_is_zero() || rect.width == 0 || rect.height == 0 {
                        self.spec_rounded()
                    } else {
                        Self::spec_push_rounded(self.spec_rounded(), RoundedClip { rect, radii })
                    }),
                None => r is None,
            },
    {
        proof {
            use_type_invariant(&self);
        }
        let mut clip = match self.intersect_bounds(rect) {
            Some(c) => c,
            None => return None,
        };
        proof {
            use_type_invariant(&clip);
        }
        if radii.is_zero() || rect.width == 0 || rect.height == 0 {
            return Some(clip);
        }
        let ghost before = clip.rounded@;
        let ghost old_len = clip.rounded_len;
        assert(before.take(old_len as int) == self.spec_rounded());
        let index: usize = if (clip.rounded_len as usize) < MAX_ROUNDED_CLIPS - 1 {
            clip.rounded_len as usize
        } else {
            MAX_ROUNDED_CLIPS - 1
        };
        let mut rounded = clip.rounded;
        rounded[index] = RoundedClip { rect, radii };
        let rounded_len: u8 = if clip.rounded_len < 4 { clip.rounded_len + 1 } else { 4 };
        proof {
            lemma_intersect_within(self.bounds, rect);
            assert forall|i: int| 0 <= i < rounded_len implies Self::spec_encloses(
                #[trigger] rounded@[i],
                clip.bounds,
            ) by {
                if i != index {
                    assert(rounded@[i] == before[i]);
                }
            }
        }
        let result = Clip { bounds: clip.bounds, rounded, rounded_len };
        assert(result.rounded@.take(result.rounded_len as int) =~= Self::spec_push_rounded(
            before.take(old_len as int),
            RoundedClip { rect, radii },
        ));
        Some(result)
    }

    /// What `rounded_rect_corners(rect, radii)` holds: the rectangle as far
    /// as it fits in `u32`, limited by `rect` with `radii` unless the corners
    /// are square or the rectangle is empty.
    pub open spec fn spec_rounded_rect_corners(rect: Bounds, radii: CornerRadius) -> (Bounds, Seq<RoundedClip>) {
        match rect.spec_intersect(rect) {
            Some(b) => (b, if radii.spec_is_zero() {
                Seq::<RoundedClip>::empty()
            } else {
                seq![RoundedClip { rect, radii }]
            }),
            None => (rect, Seq::<RoundedClip>::empty()),
        }
    }

    pub fn rounded_rect(rect: Bounds, radius: u32) -> (r: Self)
        ensures
            (r.spec_bounds(), r.spec_rounded()) == Self::spec_rounded_rect_corners(
                rect,
                CornerRadius { top_left: radius, top_right: radius, bottom_right: radius, bottom_left: radius },
            ),
    {
        Self::rounded_rect_corners(rect, CornerRadius::all(radius))
    }

    pub fn rounded_rect_corners(rect: Bounds, radii: CornerRadius) -> (r: Self)
        ensures
            (r.spec_bounds(), r.spec_rounded()) == Self::spec_rounded_rect_corners(rect, radii),
    {
        let base = Self::rect(rect);
        match base.with_rounded_rect(rect, radii) {
            Some(c) => {
                assert(Seq::<RoundedClip>::empty().push(RoundedClip { rect, radii }) =~= seq![RoundedClip { rect, radii }]);
                c
            },
            None => base,
        }
    }

    pub fn contains(self, x: u32, y: u32) -> (r: bool)
        ensures
            r == self.spec_contains(x as int, y as int),
    {
        proof {
            use_type_invariant(&self);
        }
        if x < self.bounds.x || y < self.bounds.y || x >= self.bounds.right() || y >= self.bounds.bottom() {
            return false;
        }
        let len = self.rounded_len as usize;
        let mut i: usize = 0;
        while i < len
            invariant
                len == self.spec_rounded().len(),
                len == self.rounded_len,
                len <= 4,
                0 <= i <= len,
                forall|j: int|
                    0 <= j < i ==> {
                        let clip = #[trigger] self.spec_rounded()[j];
                        x >= clip.rect.x && y >= clip.rect.y && spec_rounded_rect_contains(
                            x - clip.rect.x,
                            y - clip.rect.y,
                            clip.rect.width as int,
                            clip.rect.height as int,
                            clip.radii,
                        )
                    },
            decreases len - i,
        {
            let clip = self.rounded[i];
            assert(clip == self.spec_rounded()[i as int]);
            if !(x >= clip.rect.x && y >= clip.rect.y && rounded_rect_contains(
                x - clip.rect.x,
                y - clip.rect.y,
                clip.rect.width,
                clip.rect.height,
                clip.radii,
            )) {
                return false;
            }
            i = i + 1;
        }
        true
    }

    /// Coverage (0..=255) of pixel `(x, y)` by the clip: zero outside the
    /// rectangles, otherwise the product of the rounded coverages, each step
    /// computed as `coverage * c / 255`, stopping at zero.
    pub open spec fn spec_coverage_from(self, x: int, y: int, coverage: int, i: int) -> int
        decreases self.spec_rounded().len() - i,
    {
        if i >= self.spec_rounded().len() || i < 0 {
            coverage
        } else {
            let clip = self.spec_rounded()[i];
            if x < clip.rect.x || y < clip.rect.y || x >= clip.rect.spec_right() || y >= clip.rect.spec_bottom() {
                0
            } else {
                let next = coverage * spec_rounded_rect_coverage(
                    x - clip.rect.x,
                    y - clip.rect.y,
                    clip.rect.width as int,
                    clip.rect.height as int,
                    clip.radii,
                ) as int / 255;
                if next == 0 {
                    0
                } else {
                    self.spec_coverage_from(x, y, next, i + 1)
                }
            }
        }
    }

    pub open spec fn spec_coverage(self, x: int, y: int) -> u8 {
        if !self.spec_bounds().spec_contains_point(x, y) {
            0
        } else {
            self.spec_coverage_from(x, y, 255, 0) as u8
        }
    }

    pub fn coverage(self, x: u32, y: u32) -> (r: u8)
        ensures
            r == self.spec_coverage(x as int, y as int),
    {
        proof {
            use_type_invariant(&self);
        }
        if x < self.bounds.x || y < self.bounds.y || x >= self.bounds.right() || y >= self.bounds.bottom() {
            return 0;
        }
        let len = self.rounded_len as usize;
        let mut coverage: u16 = 255;
        let mut i: usize = 0;
        while i < len
            invariant
                len == self.spec_rounded().len(),
                len == self.rounded_len,
                len <= 4,
                0 <= i <= len,
                0 < coverage <= 255,
                self.spec_coverage_from(x as int, y as int, 255, 0) == self.spec_coverage_from(
                    x as int,
                    y as int,
                    coverage as int,
                    i as int,
                ),
            decreases len - i,
        {
            let clip = self.rounded[i];
            assert(clip == self.spec_rounded()[i as int]);
            if x < clip.rect.x || y < clip.rect.y || x >= clip.rect.right() || y >= clip.rect.bottom() {
                return 0;
            }
            let rounded = rounded_rect_coverage(
                x - clip.rect.x,
                y - clip.rect.y,
                clip.rect.width,
                clip.rect.height,
                clip.radii,
            );
            proof {
                assert(coverage as int * rounded as int <= 255 * 255) by (nonlinear_arith)
                    requires
                        coverage <= 255,
                        rounded <= 255,
                ;
                assert(coverage as int * rounded as int / 255 <= 255) by (nonlinear_arith)
                    requires
                        coverage <= 255,
                        rounded <= 255,
                ;
            }
            coverage = coverage * (rounded as u16) / 255;
            if coverage == 0 {
                return 0;
            }
            i = i + 1;
        }
        coverage as u8
    }
}

/// `value * scale`, saturating at `u32::MAX`.
pub open spec fn spec_scale_value(value: u32, scale: u32) -> u32 {
    sat_mul(value as int, scale as int) as u32
}

/// Every coordinate and extent multiplied by `scale` (saturating).
pub open spec fn spec_scale_bounds(bounds: Bounds, scale: u32) -> Bounds {
    Bounds {
        x: spec_scale_value(bounds.x, scale),
        y: spec_scale_value(bounds.y, scale),
        width: spec_scale_value(bounds.width, scale),
        height: spec_scale_value(bounds.height, scale),
    }
}

/// Narrowing a clip by a rectangle, with or without rounded corners, lets
/// in no point that the clip kept out, and none outside the rectangle, while
/// the clip keeps fewer than four rounded rectangles.
pub proof fn lemma_narrowed_clip_within(clip: Clip, narrowed: Clip, rect: Bounds, radii: CornerRadius, x: int, y: int)
    requires
        clip.spec_rounded().len() < 4,
        clip.spec_bounds().spec_intersect(rect) == Some(narrowed.spec_bounds()),
        narrowed.spec_rounded() == (if radii.spec_is_zero() || rect.width == 0 || rect.height == 0 {
            clip.spec_rounded()
        } else {
            Clip::spec_push_rounded(clip.spec_rounded(), RoundedClip { rect, radii })
        }),
        narrowed.spec_contains(x, y),
    ensures
        clip.spec_contains(x, y),
        rect.spec_contains_point(x, y),
{
    lemma_bounds_intersect_exact(clip.spec_bounds(), rect, x, y);
    assert forall|i: int| 0 <= i < clip.spec_rounded().len() implies {
        let c = #[trigger] clip.spec_rounded()[i];
        x >= c.rect.x && y >= c.rect.y && spec_rounded_rect_contains(
            x - c.rect.x,
            y - c.rect.y,
            c.rect.width as int,
            c.rect.height as int,
            c.radii,
        )
    } by {
        assert(narrowed.spec_rounded()[i] == clip.spec_rounded()[i]);
    }
}

/// A rounded rectangle and its radii multiplied by `scale`.
pub open spec fn spec_scale_rounded(clip: RoundedClip, scale: u32) -> RoundedClip {
    RoundedClip { rect: spec_scale_bounds(clip.rect, scale), radii: clip.radii.spec_scaled(scale) }
}

/// The rectangle with its extents cut back to where it ends in `u32`.
pub open spec fn spec_normalized(bounds: Bounds) -> Bounds {
    Bounds {
        x: bounds.x,
        y: bounds.y,
        width: sat_sub(bounds.spec_right(), bounds.x as int) as u32,
        height: sat_sub(bounds.spec_bottom(), bounds.y as int) as u32,
    }
}

pub fn scale_value(value: u32, scale: u32) -> (r: u32)
    ensures
        r == spec_scale_value(value, scale),
{
    sat_mul_u32(value, scale)
}

pub fn scale_bounds(bounds: Bounds, scale: u32) -> (r: Bounds)
    ensures
        r == spec_scale_bounds(bounds, scale),
{
    Bounds {
        x: scale_value(bounds.x, scale),
        y: scale_value(bounds.y, scale),
        width: scale_value(bounds.width, scale),
        height: scale_value(bounds.height, scale),
    }
}

/// `min(M, min(M, a) + min(M, b)) == min(M, a + b)` for non-negative `a`, `b`.
proof fn lemma_sat_add_of_sat(a: int, b: int)
    requires
        a >= 0,
        b >= 0,
    ensures
        sat_add(min_int(a, u32::MAX as int), min_int(b, u32::MAX as int)) == min_int(a + b, u32::MAX as int),
{
}

/// Scaling by at least 1 keeps a rounded rectangle around the clip
/// rectangle, as long as the scaled corner of the clip rectangle stays
/// below `u32::MAX`.
proof fn lemma_scale_keeps_enclosure(clip: RoundedClip, bounds: Bounds, scale: u32)
    requires
        Clip::spec_encloses(clip, bounds),
        bounds.width > 0,
        bounds.height > 0,
        bounds.x + bounds.width <= u32::MAX,
        bounds.y + bounds.height <= u32::MAX,
        scale >= 1,
        bounds.x * scale < u32::MAX,
        bounds.y * scale < u32::MAX,
    ensures
        spec_scale_bounds(bounds, scale).spec_intersect(spec_scale_bounds(clip.rect, scale)) == Some(
            spec_normalized(spec_scale_bounds(bounds, scale)),
        ),
        spec_normalized(spec_scale_bounds(bounds, scale)).spec_intersect(spec_scale_bounds(clip.rect, scale))
            == Some(spec_normalized(spec_scale_bounds(bounds, scale))),
        !clip.radii.spec_scaled(scale).spec_is_zero(),
        spec_scale_bounds(clip.rect, scale).width > 0,
        spec_scale_bounds(clip.rect, scale).height > 0,
{
    let s = scale as int;
    let m = u32::MAX as int;
    let b = bounds;
    let r = clip.rect;
    assert(b.x * s + b.width * s == (b.x + b.width) * s) by (nonlinear_arith);
    assert(b.y * s + b.height * s == (b.y + b.height) * s) by (nonlinear_arith);
    assert(r.x * s + r.width * s == (r.x + r.width) * s) by (nonlinear_arith);
    assert(r.y * s + r.height * s == (r.y + r.height) * s) by (nonlinear_arith);
    assert(r.x * s <= b.x * s) by (nonlinear_arith)
        requires
            r.x <= b.x,
            s >= 1,
    ;
    assert(r.y * s <= b.y * s) by (nonlinear_arith)
        requires
            r.y <= b.y,
            s >= 1,
    ;
    assert((b.x + b.width) * s <= (r.x + r.width) * s) by (nonlinear_arith)
        requires
            b.x + b.width <= r.x + r.width,
            s >= 1,
    ;
    assert((b.y + b.height) * s <= (r.y + r.height) * s) by (nonlinear_arith)
        requires
            b.y + b.height <= r.y + r.height,
            s >= 1,
    ;
    assert(b.width * s >= 1 && b.height * s >= 1 && r.width * s >= 1 && r.height * s >= 1) by (nonlinear_arith)
        requires
            b.width >= 1,
            b.height >= 1,
            r.width >= 1,
            r.height >= 1,
            s >= 1,
    ;
    assert(clip.radii.top_left * s >= clip.radii.top_left && clip.radii.top_right * s >= clip.radii.top_right
        && clip.radii.bottom_right * s >= clip.radii.bottom_right && clip.radii.bottom_left * s
        >= clip.radii.bottom_left) by (nonlinear_arith)
        requires
            s >= 1,
    ;
    assert(b.x * s >= 0 && b.width * s >= 0 && r.x * s >= 0 && r.width * s >= 0) by (nonlinear_arith)
        requires
            b.x >= 0,
            b.width >= 0,
            r.x >= 0,
            r.width >= 0,
            s >= 0,
    ;
    assert(b.y * s >= 0 && b.height * s >= 0 && r.y * s >= 0 && r.height * s >= 0) by (nonlinear_arith)
        requires
            b.y >= 0,
            b.height >= 0,
            r.y >= 0,
            r.height >= 0,
            s >= 0,
    ;
    lemma_sat_add_of_sat(b.x * s, b.width * s);
    lemma_sat_add_of_sat(b.y * s, b.height * s);
    lemma_sat_add_of_sat(r.x * s, r.width * s);
    lemma_sat_add_of_sat(r.y * s, r.height * s);
}

/// The clip with its rectangle and every rounded rectangle scaled by
/// `scale`. A clip with rounded rectangles must be scaled by at least 1 and
/// its top left corner must scale to below `u32::MAX`.
pub fn scale_clip(clip: Clip, scale: u32) -> (r: Clip)
    requires
        clip.spec_rounded().len() > 0 ==> scale >= 1 && clip.spec_bounds().x * scale < u32::MAX
            && clip.spec_bounds().y * scale < u32::MAX,
    ensures
        r.spec_bounds() == (if clip.spec_rounded().len() == 0 {
            spec_scale_bounds(clip.spec_bounds(), scale)
        } else {
            spec_normalized(spec_scale_bounds(clip.spec_bounds(), scale))
        }),
        r.spec_rounded() == clip.spec_rounded().map_values(|c: RoundedClip| spec_scale_rounded(c, scale)),
{
    proof {
        use_type_invariant(&clip);
    }
    let scaled_bounds = scale_bounds(clip.bounds, scale);
    let mut scaled = Clip::rect(scaled_bounds);
    let len = clip.rounded_len as usize;
    let ghost target = clip.spec_rounded().map_values(|c: RoundedClip| spec_scale_rounded(c, scale));
    let mut i: usize = 0;
    while i < len
        invariant
            len == clip.spec_rounded().len(),
            len == clip.rounded_len,
            len <= 4,
            i <= len,
            clip.spec_rounded().len() > 0 ==> scale >= 1 && clip.spec_bounds().x * scale < u32::MAX
                && clip.spec_bounds().y * scale < u32::MAX,
            clip.rounded_len > 0 ==> {
                &&& clip.bounds.width > 0 && clip.bounds.height > 0
                &&& clip.bounds.x + clip.bounds.width <= u32::MAX
                &&& clip.bounds.y + clip.bounds.height <= u32::MAX
            },
            forall|j: int| 0 <= j < clip.rounded_len ==> Clip::spec_encloses(#[trigger] clip.rounded@[j], clip.bounds),
            clip.spec_rounded() == clip.rounded@.take(clip.rounded_len as int),
            scaled_bounds == spec_scale_bounds(clip.spec_bounds(), scale),
            target == clip.spec_rounded().map_values(|c: RoundedClip| spec_scale_rounded(c, scale)),
            scaled.spec_bounds() == (if i == 0 { scaled_bounds } else { spec_normalized(scaled_bounds) }),
            scaled.spec_rounded() == target.take(i as int),
        decreases len - i,
    {
        let rounded = clip.rounded_at(i);
        proof {
            assert(clip.spec_rounded()[i as int] == clip.rounded@[i as int]);
            lemma_scale_keeps_enclosure(rounded, clip.bounds, scale);
        }
        let rect = scale_bounds(rounded.rect, scale);
        let radii = rounded.radii.scaled(scale);
        let next = scaled.with_rounded_rect(rect, radii);
        match next {
            Some(c) => {
                assert(target.take(i as int).push(spec_scale_rounded(rounded, scale)) =~= target.take(i + 1));
                scaled = c;
            },
            None => {
                assert(false);
            },
        }
        i = i + 1;
    }
    assert(target.take(len as int) =~= target);
    scaled
}

} // verus!
