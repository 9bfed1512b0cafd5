use hypr_xp_magnifier::capture::{frame_action, needs_new_buffer, BufferSpec, FrameAction, FrameEvent};
use hypr_xp_magnifier::dock::{anchor_for, default_thickness, is_horizontal, layout_for, AnchorEdges, DockPosition};
use hypr_xp_magnifier::geometry::{
    bar_footprint, compute_capture_region, output_offset, output_size, point_is_over_bar,
    OutputGeometry, OutputInfo, OutputMode, Rect,
};
use hypr_xp_magnifier::magnifier::{CaptureAction, MagnifierState};

#[test]
fn defaults() {
    assert_eq!(default_thickness(), 200);
    assert_eq!(DockPosition::default(), DockPosition::Top);
}

#[test]
fn horizontal_positions() {
    assert!(is_horizontal(DockPosition::Top));
    assert!(is_horizontal(DockPosition::Bottom));
    assert!(!is_horizontal(DockPosition::Left));
    assert!(!is_horizontal(DockPosition::Right));
}

#[test]
fn anchors_cover_own_edge_and_both_sides() {
    assert_eq!(anchor_for(DockPosition::Top), AnchorEdges { top: true, bottom: false, left: true, right: true });
    assert_eq!(anchor_for(DockPosition::Bottom), AnchorEdges { top: false, bottom: true, left: true, right: true });
    assert_eq!(anchor_for(DockPosition::Left), AnchorEdges { top: true, bottom: true, left: true, right: false });
    assert_eq!(anchor_for(DockPosition::Right), AnchorEdges { top: true, bottom: true, left: false, right: true });
}

#[test]
fn layout_sizes_and_exclusive_zone() {
    let l = layout_for(200, DockPosition::Top);
    assert_eq!((l.width, l.height, l.exclusive_zone), (0, 200, 200));
    let l = layout_for(150, DockPosition::Right);
    assert_eq!((l.width, l.height, l.exclusive_zone), (150, 0, 150));
    let l = layout_for(u32::MAX, DockPosition::Left);
    assert_eq!(l.exclusive_zone, -1);
}

fn info(pos: Option<(i32, i32)>, size: Option<(i32, i32)>, modes: Vec<OutputMode>) -> OutputInfo {
    OutputInfo { location: (5, 6), logical_position: pos, logical_size: size, modes }
}

#[test]
fn output_offset_prefers_logical_position() {
    assert_eq!(output_offset(None), (0, 0));
    assert_eq!(output_offset(Some(&info(Some((1920, 0)), None, vec![]))), (1920, 0));
    assert_eq!(output_offset(Some(&info(None, None, vec![]))), (5, 6));
}

#[test]
fn output_size_falls_back_to_current_mode_then_assumed() {
    let modes = vec![
        OutputMode { dimensions: (800, 600), current: false },
        OutputMode { dimensions: (2560, 1440), current: true },
        OutputMode { dimensions: (1024, 768), current: true },
    ];
    assert_eq!(output_size(Some(&info(None, Some((1707, 960)), modes.clone()))), (1707, 960));
    assert_eq!(output_size(Some(&info(None, None, modes))), (2560, 1440));
    assert_eq!(output_size(Some(&info(None, None, vec![OutputMode { dimensions: (1, 1), current: false }]))), (3840, 2160));
    assert_eq!(output_size(None), (3840, 2160));
}

#[test]
fn footprint_per_position() {
    assert_eq!(bar_footprint(1920, 1080, 200, DockPosition::Top), Rect { x: 0, y: 0, width: 1920, height: 200 });
    assert_eq!(bar_footprint(1920, 1080, 200, DockPosition::Bottom), Rect { x: 0, y: 880, width: 1920, height: 200 });
    assert_eq!(bar_footprint(1920, 1080, 300, DockPosition::Left), Rect { x: 0, y: 0, width: 300, height: 1080 });
    assert_eq!(bar_footprint(1920, 1080, 300, DockPosition::Right), Rect { x: 1620, y: 0, width: 300, height: 1080 });
    assert_eq!(bar_footprint(100, 100, 300, DockPosition::Bottom).y, 0);
}

#[test]
fn point_over_bar_uses_output_local_coordinates() {
    let g = OutputGeometry { offset: (1920, 0), size: (1920, 1080) };
    assert!(point_is_over_bar(g, 200, DockPosition::Top, (1920, 0)));
    assert!(point_is_over_bar(g, 200, DockPosition::Top, (3839, 199)));
    assert!(!point_is_over_bar(g, 200, DockPosition::Top, (3839, 200)));
    assert!(!point_is_over_bar(g, 200, DockPosition::Top, (100, 10)));
    assert!(point_is_over_bar(g, 200, DockPosition::Bottom, (2000, 1000)));
    assert!(!point_is_over_bar(g, 200, DockPosition::Bottom, (2000, 879)));
}

#[test]
fn capture_region_centred_and_clamped() {
    let g = OutputGeometry { offset: (0, 0), size: (1920, 1080) };
    assert_eq!(compute_capture_region(g, 768, 80, (960, 540)), Rect { x: 576, y: 500, width: 768, height: 80 });
    assert_eq!(compute_capture_region(g, 768, 80, (10, 10)), Rect { x: 0, y: 0, width: 768, height: 80 });
    assert_eq!(compute_capture_region(g, 768, 80, (5000, 5000)), Rect { x: 1152, y: 1000, width: 768, height: 80 });
    assert_eq!(compute_capture_region(g, 4000, 80, (960, 540)), Rect { x: 0, y: 500, width: 1920, height: 80 });
    let second = OutputGeometry { offset: (1920, 0), size: (1920, 1080) };
    assert_eq!(compute_capture_region(second, 768, 80, (100, 540)).x, 0);
}

#[test]
fn capture_region_on_degenerate_output() {
    let g = OutputGeometry { offset: (0, 0), size: (0, -5) };
    assert_eq!(compute_capture_region(g, 768, 80, (3, 3)), Rect { x: 0, y: 0, width: 1, height: 1 });
}

#[test]
fn capture_region_always_inside_output() {
    let g = OutputGeometry { offset: (-300, 40), size: (1366, 768) };
    for &p in [(-10000, -10000), (0, 0), (500, 500), (10000, 10000), (-300, 40)].iter() {
        for &(w, h) in [(1, 1), (100, 50), (1366, 768), (5000, 5000)].iter() {
            let r = compute_capture_region(g, w, h, p);
            assert!(r.x >= 0 && r.y >= 0);
            assert!(r.x + r.width <= 1366 && r.y + r.height <= 768);
            assert!(r.width >= 1 && r.height >= 1);
        }
    }
}

#[test]
fn state_configure_and_exit() {
    let mut s = MagnifierState::new(200, DockPosition::Top, 0);
    assert!(s.configure(0, 120));
    assert_eq!((s.width, s.height), (1, 120));
    assert!(!s.configure(1920, 200));
    assert_eq!((s.width, s.height), (1920, 200));
    let b = s.display_buffer();
    assert_eq!((b.width, b.height, b.stride), (1920, 200, 7680));
    s.press_key(false);
    assert!(!s.exit);
    s.press_key(true);
    assert!(s.exit);
    let mut t = MagnifierState::new(1, DockPosition::Left, 0);
    t.closed();
    assert!(t.exit);
}

#[test]
fn state_keyboard_focus_only_on_bar() {
    let mut s = MagnifierState::new(200, DockPosition::Top, 0);
    s.keyboard_enter(false);
    assert!(!s.keyboard_focus);
    s.keyboard_enter(true);
    assert!(s.keyboard_focus);
    s.keyboard_leave(false);
    assert!(s.keyboard_focus);
    s.keyboard_leave(true);
    assert!(!s.keyboard_focus);
}

#[test]
fn layout_change_is_sent_once() {
    let mut s = MagnifierState::new(200, DockPosition::Top, 0);
    assert_eq!(s.apply_pending_layout(200, DockPosition::Top), None);
    let r = s.apply_pending_layout(250, DockPosition::Left).unwrap();
    assert_eq!(r, layout_for(250, DockPosition::Left));
    assert_eq!(s.apply_pending_layout(250, DockPosition::Left), None);
    assert_eq!(s.apply_pending_layout(0, DockPosition::Right), None);
    assert_eq!((s.last_requested_thickness, s.last_requested_position), (250, DockPosition::Left));
}

const MS: u64 = 1_000_000;

#[test]
fn capture_decisions() {
    let g = OutputGeometry { offset: (0, 0), size: (1920, 1080) };
    let interval = 16 * MS;
    let mut s = MagnifierState::new(200, DockPosition::Top, 1000 * MS);
    assert_eq!(s.last_capture_request, 1000 * MS);
    assert!(!s.capture_is_due(1015 * MS, interval));
    assert!(s.capture_is_due(1016 * MS, interval));
    assert!(!s.capture_is_due(999 * MS, interval));
    assert!(s.capture_is_due(999 * MS, 0));
    // Not yet a whole refresh interval since start-up.
    assert_eq!(s.maybe_request_capture(1010 * MS, interval, Some(g), (960, 540), 768, 80), CaptureAction::Wait);
    // A clock reading earlier than the last request counts as no time passed.
    assert_eq!(s.maybe_request_capture(10 * MS, interval, Some(g), (960, 540), 768, 80), CaptureAction::Wait);
    assert_eq!(s.maybe_request_capture(1016 * MS, interval, None, (960, 540), 768, 80), CaptureAction::Wait);
    assert_eq!(
        s.maybe_request_capture(1016 * MS, interval, Some(g), (960, 100), 768, 80),
        CaptureAction::ShowPlaceholder
    );
    assert!(!s.capture_in_flight);
    assert_eq!(s.last_capture_request, 1000 * MS);
    let a = s.maybe_request_capture(1016 * MS, interval, Some(g), (960, 540), 768, 80);
    assert_eq!(a, CaptureAction::Capture(Rect { x: 576, y: 500, width: 768, height: 80 }));
    assert!(s.capture_in_flight);
    assert_eq!(s.last_capture_request, 1016 * MS);
    // In flight: nothing more is asked for, however much time passes.
    assert_eq!(s.maybe_request_capture(5000 * MS, interval, Some(g), (960, 540), 768, 80), CaptureAction::Wait);
    assert_eq!(s.frame_event(FrameEvent::Ready, None), FrameAction::KeepCapture);
    assert!(!s.capture_in_flight);
    // Finished, but the next request still waits for the interval.
    assert_eq!(s.maybe_request_capture(1020 * MS, interval, Some(g), (960, 540), 768, 80), CaptureAction::Wait);
    assert!(matches!(
        s.maybe_request_capture(1032 * MS, interval, Some(g), (960, 540), 768, 80),
        CaptureAction::Capture(_)
    ));
}

#[test]
fn capture_cycle_spacing_over_a_run() {
    let g = OutputGeometry { offset: (0, 0), size: (1920, 1080) };
    let interval = 33 * MS;
    let mut s = MagnifierState::new(200, DockPosition::Bottom, 0);
    let mut requests: Vec<u64> = Vec::new();
    let mut t = 0u64;
    for frame in 0..200u64 {
        t += 7 * MS;
        let before = s.capture_in_flight;
        if let CaptureAction::Capture(_) = s.maybe_request_capture(t, interval, Some(g), (960, 540), 768, 80) {
            assert!(!before);
            requests.push(t);
        }
        if frame % 3 == 2 {
            s.frame_event(FrameEvent::Ready, None);
        }
    }
    assert!(requests.len() > 10);
    for pair in requests.windows(2) {
        assert!(pair[1] >= pair[0] + interval);
    }
}

#[test]
fn frame_events_end_the_capture() {
    let g = OutputGeometry { offset: (0, 0), size: (1920, 1080) };
    let spec = BufferSpec::from_offer(768, 80, 3072, 1);
    for (event, ends) in [
        (FrameEvent::BufferOffer(spec), false),
        (FrameEvent::Other, false),
        (FrameEvent::UnknownFormat, true),
        (FrameEvent::AllocationFailed, true),
        (FrameEvent::Ready, true),
        (FrameEvent::Failed, true),
    ] {
        let mut s = MagnifierState::new(200, DockPosition::Top, 0);
        assert!(matches!(s.maybe_request_capture(MS, 0, Some(g), (960, 540), 768, 80), CaptureAction::Capture(_)));
        let before = s;
        s.frame_event(event, Some(spec));
        assert_eq!(s.capture_in_flight, !ends);
        assert_eq!(s.last_capture_request, before.last_capture_request);
        assert_eq!(s.width, before.width);
        assert_eq!(s.exit, before.exit);
    }
}

#[test]
fn frame_event_actions() {
    let spec = BufferSpec::from_offer(768, 80, 3072, 1);
    let other = BufferSpec::from_offer(768, 80, 3072, 0);
    assert_eq!(frame_action(FrameEvent::BufferOffer(spec), None), FrameAction::AllocateThenCopy(spec));
    assert_eq!(frame_action(FrameEvent::BufferOffer(spec), Some(spec)), FrameAction::CopyIntoCached);
    assert_eq!(frame_action(FrameEvent::BufferOffer(other), Some(spec)), FrameAction::AllocateThenCopy(other));
    assert_eq!(frame_action(FrameEvent::UnknownFormat, Some(spec)), FrameAction::DiscardFrame);
    assert_eq!(frame_action(FrameEvent::AllocationFailed, None), FrameAction::DiscardFrame);
    assert_eq!(frame_action(FrameEvent::Failed, Some(spec)), FrameAction::DiscardFrame);
    assert_eq!(frame_action(FrameEvent::Ready, Some(spec)), FrameAction::KeepCapture);
    assert_eq!(frame_action(FrameEvent::Other, None), FrameAction::Ignore);
    let mut s = MagnifierState::new(200, DockPosition::Top, 0);
    assert_eq!(s.frame_event(FrameEvent::BufferOffer(spec), Some(spec)), FrameAction::CopyIntoCached);
    assert_eq!(s.frame_event(FrameEvent::BufferOffer(spec), None), FrameAction::AllocateThenCopy(spec));
}

#[test]
fn footprint_needs_only_the_docked_edge() {
    // Docked at the top or left, a huge thickness only sets the bar's size.
    let t = u32::MAX;
    let r = bar_footprint(i32::MIN, i32::MIN, t, DockPosition::Top);
    assert_eq!(r, Rect { x: 0, y: 0, width: i32::MIN, height: -1 });
    let r = bar_footprint(i32::MIN, 10, t, DockPosition::Left);
    assert_eq!(r, Rect { x: 0, y: 0, width: -1, height: 10 });
    // Docked at the bottom, only the height is reduced by the thickness.
    let r = bar_footprint(i32::MIN, 1080, 200, DockPosition::Bottom);
    assert_eq!(r, Rect { x: 0, y: 880, width: i32::MIN, height: 200 });
    let r = bar_footprint(1920, i32::MIN, 200, DockPosition::Right);
    assert_eq!(r, Rect { x: 1720, y: 0, width: 200, height: i32::MIN });
}

#[test]
fn capture_buffer_reuse() {
    let spec = BufferSpec::from_offer(1920, 1080, 7680, 1);
    assert_eq!(spec, BufferSpec { width: 1920, height: 1080, stride: 7680, format: 1 });
    assert!(needs_new_buffer(None, spec));
    assert!(!needs_new_buffer(Some(spec), spec));
    assert!(needs_new_buffer(Some(spec), BufferSpec::from_offer(1920, 1080, 7680, 0)));
    assert!(needs_new_buffer(Some(spec), BufferSpec::from_offer(1280, 1080, 7680, 1)));
    assert_eq!(BufferSpec::from_offer(u32::MAX, 1, 1, 1).width, -1);
}

use hypr_xp_magnifier::geometry::current_mode_dimensions;

#[test]
fn current_mode_is_first_marked_current() {
    assert_eq!(current_mode_dimensions(&vec![]), None);
    let modes = vec![
        OutputMode { dimensions: (1, 2), current: false },
        OutputMode { dimensions: (3, 4), current: true },
        OutputMode { dimensions: (5, 6), current: true },
    ];
    assert_eq!(current_mode_dimensions(&modes), Some((3, 4)));
}

#[test]
fn output_geometry_combines_offset_and_size() {
    let i = OutputInfo { location: (10, 20), logical_position: None, logical_size: Some((800, 600)), modes: vec![] };
    let g = OutputGeometry::of(Some(&i));
    assert_eq!((g.offset, g.size), ((10, 20), (800, 600)));
    let g = OutputGeometry::of(None);
    assert_eq!((g.offset, g.size), ((0, 0), (3840, 2160)));
}
