use simple_render::surface::{
    animation_clock, animation_frame_outcome, animation_start, may_reuse_spare,
    spare_frame_action, SpareFrame, SurfaceAnimationFrame, SurfaceAnimationStart,
    MAX_REUSABLE_BUFFER_BYTES,
};
use simple_render::{Animation, Easing};

#[test]
fn animations_without_duration_finish_at_once() {
    let instant = Animation::new(0, Easing::Linear);
    let timed = Animation::new(100, Easing::Linear);
    assert_eq!(animation_start(instant, false), SurfaceAnimationStart::Complete);
    assert_eq!(animation_start(instant, true), SurfaceAnimationStart::Destroy);
    assert_eq!(animation_start(timed, true), SurfaceAnimationStart::Animate);
}

#[test]
fn animation_frames_run_until_their_duration() {
    let timed = Animation::new(100, Easing::EaseOut);
    assert_eq!(animation_clock(None, 500), (500, 0));
    assert_eq!(animation_clock(Some(500), 620), (500, 120));
    assert_eq!(animation_clock(Some(500), 400), (500, 0));
    assert_eq!(animation_frame_outcome(timed, 99, true), SurfaceAnimationFrame::Animate);
    assert_eq!(animation_frame_outcome(timed, 100, false), SurfaceAnimationFrame::Complete);
    assert_eq!(animation_frame_outcome(timed, 120, true), SurfaceAnimationFrame::Destroy);
}

#[test]
fn spare_buffers_are_bounded() {
    assert_eq!(spare_frame_action(true, 0), SpareFrame::Keep);
    assert_eq!(spare_frame_action(true, 1), SpareFrame::Keep);
    assert_eq!(spare_frame_action(true, 2), SpareFrame::Drop);
    assert_eq!(spare_frame_action(false, 0), SpareFrame::Release);
    assert!(may_reuse_spare(MAX_REUSABLE_BUFFER_BYTES, false));
    assert!(!may_reuse_spare(MAX_REUSABLE_BUFFER_BYTES + 1, false));
    assert!(may_reuse_spare(MAX_REUSABLE_BUFFER_BYTES + 1, true));
}
