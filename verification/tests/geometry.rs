use simple_render::geometry::{scale_bounds, scale_clip, scale_value};
use simple_render::shapes::{
    multiply_coverage, rounded_rect_bounds_coverage_with_antialias, rounded_rect_contains,
    rounded_rect_coverage, rounded_rect_coverage_with_antialias,
};
use simple_render::{Bounds, Clip, CornerRadius, RoundedClip, Spacing};

#[test]
fn bounds_union_holds_both() {
    let a = Bounds::new(2, 3, 4, 5);
    let b = Bounds::new(10, 1, 1, 1);
    assert_eq!(a.union(b), Bounds::new(2, 1, 9, 7));
    assert_eq!(a.union(b), b.union(a));
}

#[test]
fn bounds_right_and_bottom_saturate() {
    let b = Bounds::new(u32::MAX - 1, 7, 10, 3);
    assert_eq!(b.right(), u32::MAX);
    assert_eq!(b.bottom(), 10);
}

#[test]
fn bounds_intersect_is_the_overlap_or_nothing() {
    let a = Bounds::new(0, 0, 10, 10);
    assert_eq!(a.intersect(Bounds::new(5, 6, 10, 10)), Some(Bounds::new(5, 6, 5, 4)));
    assert_eq!(a.intersect(Bounds::new(10, 0, 5, 5)), None);
}

#[test]
fn bounds_translate_saturates() {
    let b = Bounds::new(5, 5, 1, 2);
    assert_eq!(b.translate(-10, 3), Bounds::new(0, 8, 1, 2));
    assert_eq!(b.translate(i32::MIN, i32::MAX), Bounds::new(0, 2147483652, 1, 2));
}

#[test]
fn bounds_inset_shrinks_each_side() {
    let b = Bounds::new(0, 0, 10, 10);
    let spacing = Spacing { top: 1, right: 2, bottom: 3, left: 4 };
    assert_eq!(b.inset(spacing), Bounds::new(4, 1, 4, 6));
    assert_eq!(Bounds::new(0, 0, 3, 3).inset(Spacing::all(5)), Bounds::new(5, 5, 0, 0));
}

#[test]
fn corner_radius_helpers() {
    assert_eq!(CornerRadius::all(10).clamp_to(6, 8), CornerRadius::all(3));
    let spacing = Spacing { top: 1, right: 2, bottom: 3, left: 4 };
    assert_eq!(
        CornerRadius::all(10).inset(spacing),
        CornerRadius { top_left: 6, top_right: 8, bottom_right: 7, bottom_left: 6 }
    );
    assert_eq!(CornerRadius::all(3).scaled(2), CornerRadius::all(6));
    assert_eq!(CornerRadius::all(u32::MAX).scaled(2), CornerRadius::all(u32::MAX));
    assert!(CornerRadius::zero().is_zero());
    assert!(!CornerRadius::all(1).is_zero());
}

#[test]
fn rounded_corners_cut_the_corner_pixels() {
    let radii = CornerRadius::all(5);
    assert!(!rounded_rect_contains(0, 0, 10, 10, radii));
    assert!(rounded_rect_contains(1, 1, 10, 10, radii));
    assert!(rounded_rect_contains(5, 5, 10, 10, radii));
    assert!(!rounded_rect_contains(10, 5, 10, 10, radii));
    assert_eq!(rounded_rect_coverage(0, 0, 10, 10, radii), 0);
    assert_eq!(rounded_rect_coverage(1, 1, 10, 10, radii), 159);
    assert_eq!(rounded_rect_coverage(5, 5, 10, 10, radii), 255);
    assert_eq!(rounded_rect_coverage(3, 3, 10, 10, CornerRadius::zero()), 255);
}

#[test]
fn antialiasing_chooses_between_coverage_and_containment() {
    let radii = CornerRadius::all(5);
    assert_eq!(rounded_rect_coverage_with_antialias(1, 1, 10, 10, radii, true), 159);
    assert_eq!(rounded_rect_coverage_with_antialias(1, 1, 10, 10, radii, false), 255);
    assert_eq!(rounded_rect_coverage_with_antialias(0, 0, 10, 10, radii, false), 0);
    let bounds = Bounds::new(10, 10, 10, 10);
    assert_eq!(rounded_rect_bounds_coverage_with_antialias(bounds, 11, 11, radii, true), 159);
    assert_eq!(rounded_rect_bounds_coverage_with_antialias(bounds, 5, 5, radii, true), 0);
}

#[test]
fn coverage_multiplies() {
    assert_eq!(multiply_coverage(200, 100), 78);
    assert_eq!(multiply_coverage(255, 255), 255);
    assert_eq!(multiply_coverage(0, 255), 0);
}

#[test]
fn clip_with_rounded_rect_limits_points() {
    let clip = Clip::rect(Bounds::new(0, 0, 10, 10))
        .with_rounded_rect(Bounds::new(0, 0, 10, 10), CornerRadius::all(5))
        .expect("clip");
    assert!(!clip.contains(0, 0));
    assert!(clip.contains(5, 5));
    assert!(!clip.contains(20, 20));
    assert_eq!(clip.coverage(1, 1), 159);
    assert_eq!(clip.coverage(20, 20), 0);
    assert_eq!(clip.rounded_len(), 1);
    assert!(!clip.is_rect());
}

#[test]
fn clip_intersections() {
    let clip = Clip::rect(Bounds::new(0, 0, 10, 10));
    assert!(clip.is_rect());
    let inner = clip.intersect_bounds(Bounds::new(5, 5, 10, 10)).expect("overlap");
    assert_eq!(inner.bounds(), Bounds::new(5, 5, 5, 5));
    assert!(clip.intersect_bounds(Bounds::new(20, 20, 1, 1)).is_none());
    assert!(clip.with_rounded_rect(Bounds::new(20, 20, 5, 5), CornerRadius::all(2)).is_none());
    let square = clip.with_rounded_rect(Bounds::new(2, 2, 4, 4), CornerRadius::zero()).expect("clip");
    assert!(square.is_rect());
    assert_eq!(square.bounds(), Bounds::new(2, 2, 4, 4));
}

#[test]
fn clip_keeps_at_most_four_rounded_rects() {
    let mut clip = Clip::rect(Bounds::new(0, 0, 100, 100));
    for i in 0..6u32 {
        clip = clip
            .with_rounded_rect(Bounds::new(i, i, 100 - 2 * i, 100 - 2 * i), CornerRadius::all(1))
            .expect("clip");
    }
    assert_eq!(clip.rounded_len(), 4);
    assert_eq!(clip.rounded_at(3).rect, Bounds::new(5, 5, 90, 90));
    assert_eq!(clip.bounds(), Bounds::new(5, 5, 90, 90));
}

#[test]
fn rounded_rect_clips() {
    let clip = Clip::rounded_rect(Bounds::new(0, 0, 10, 10), 5);
    assert_eq!(clip.rounded_len(), 1);
    assert_eq!(
        clip.rounded_at(0),
        RoundedClip { rect: Bounds::new(0, 0, 10, 10), radii: CornerRadius::all(5) }
    );
    let square = Clip::rounded_rect_corners(Bounds::new(0, 0, 10, 10), CornerRadius::zero());
    assert!(square.is_rect());
}

#[test]
fn scaling_multiplies_and_saturates() {
    assert_eq!(scale_value(7, 3), 21);
    assert_eq!(scale_value(u32::MAX, 2), u32::MAX);
    assert_eq!(scale_bounds(Bounds::new(1, 2, 3, 4), 2), Bounds::new(2, 4, 6, 8));
}

#[test]
fn scale_clip_scales_every_rounded_rect() {
    let clip = Clip::rect(Bounds::new(1, 2, 3, 4))
        .with_rounded_rect(Bounds::new(0, 0, 10, 10), CornerRadius::all(2))
        .expect("clip");
    let scaled = scale_clip(clip, 2);
    assert_eq!(scaled.bounds(), Bounds::new(2, 4, 6, 8));
    assert_eq!(scaled.rounded_len(), 1);
    assert_eq!(
        scaled.rounded_at(0),
        RoundedClip { rect: Bounds::new(0, 0, 20, 20), radii: CornerRadius::all(4) }
    );
    let plain = scale_clip(Clip::rect(Bounds::new(3, 3, 3, 3)), 0);
    assert_eq!(plain.bounds(), Bounds::new(0, 0, 0, 0));
}

#[test]
fn narrowing_a_clip_lets_in_nothing_new() {
    let clip = Clip::rect(Bounds::new(0, 0, 100, 100));
    let narrowed = clip.with_rounded_rect(Bounds::new(10, 10, 50, 50), CornerRadius::all(10)).unwrap();
    assert_eq!(narrowed.bounds(), Bounds::new(10, 10, 50, 50));
    for (x, y) in [(5, 5), (30, 30), (10, 10), (59, 59), (70, 30), (99, 99)] {
        if narrowed.contains(x, y) {
            assert!(clip.contains(x, y));
            assert!(x >= 10 && x < 60 && y >= 10 && y < 60);
        }
    }
    assert!(narrowed.contains(30, 30));
    assert!(!narrowed.contains(10, 10));
    assert!(!narrowed.contains(5, 5));
}

#[test]
fn uniform_rounded_boxes_are_mirror_symmetric() {
    for (w, h, r) in [(10u32, 7u32, 3u32), (9, 9, 9), (5, 12, 2), (1, 1, 4)] {
        let rr = CornerRadius::all(r);
        for y in 0..h {
            for x in 0..w {
                let inside = rounded_rect_contains(x, y, w, h, rr);
                assert_eq!(inside, rounded_rect_contains(w - 1 - x, y, w, h, rr));
                assert_eq!(inside, rounded_rect_contains(x, h - 1 - y, w, h, rr));
            }
        }
        assert!(!rounded_rect_contains(w, 0, w, h, rr));
        assert!(!rounded_rect_contains(0, h, w, h, rr));
    }
}
