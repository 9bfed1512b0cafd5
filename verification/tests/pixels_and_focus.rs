use hypr_xp_magnifier::focus::{
    aim_point, ActiveWindow, focus_change, focus_rect_from_extents, AccessibilityEvent, CursorTracker, FocusChange, FocusRect,
};
use hypr_xp_magnifier::pixels::{bilinear_taps, blit_nearest, clampi, fill_placeholder, read_pixel, sample_nearest_at, write_pixel};

#[test]
fn clampi_behaves_like_max_then_min() {
    assert_eq!(clampi(5, 0, 3), 3);
    assert_eq!(clampi(-2, 0, 3), 0);
    assert_eq!(clampi(2, 0, 3), 2);
    assert_eq!(clampi(2, 5, 1), 1);
    for v in -5..10 {
        assert_eq!(clampi(v, 0, 4), v.max(0).min(4));
    }
}

fn image() -> Vec<u8> {
    (0u8..24).collect()
}

#[test]
fn read_pixel_inside_and_outside() {
    let img = image();
    assert_eq!(read_pixel(&img, 12, 0, 0), [0, 1, 2, 3]);
    assert_eq!(read_pixel(&img, 12, 2, 1), [20, 21, 22, 23]);
    assert_eq!(read_pixel(&img, 12, 3, 1), [0, 0, 0, 0xFF]);
    assert_eq!(read_pixel(&img, 12, 0, 2), [0, 0, 0, 0xFF]);
    assert_eq!(read_pixel(&img, 12, -2, 0), [0, 0, 0, 0xFF]);
    assert_eq!(read_pixel(&img[..22], 12, 2, 1), [0, 0, 0, 0xFF]);
}

#[test]
fn write_then_read_gives_pixel_back() {
    let mut img = image();
    write_pixel(&mut img, 12, 1, 1, [9, 8, 7, 6]);
    assert_eq!(read_pixel(&img, 12, 1, 1), [9, 8, 7, 6]);
    assert_eq!(read_pixel(&img, 12, 0, 1), [12, 13, 14, 15]);
    assert_eq!(read_pixel(&img, 12, 2, 1), [20, 21, 22, 23]);
    let before = img.clone();
    write_pixel(&mut img, 12, 3, 1, [1, 1, 1, 1]);
    write_pixel(&mut img, 12, -3, 0, [1, 1, 1, 1]);
    assert_eq!(img, before);
}

#[test]
fn placeholder_fills_whole_pixels_only() {
    let mut canvas = vec![7u8; 10];
    fill_placeholder(&mut canvas);
    assert_eq!(canvas, vec![0x1c, 0x14, 0x14, 0xFF, 0x1c, 0x14, 0x14, 0xFF, 7, 7]);
    assert_eq!(0xFF14141cu32.to_le_bytes(), [0x1c, 0x14, 0x14, 0xFF]);
    assert_eq!(read_pixel(&canvas, 4, 1, 0), [0x1c, 0x14, 0x14, 0xFF]);
}

#[test]
fn nearest_sample_clamps_to_image() {
    let img = image();
    assert_eq!(sample_nearest_at(&img, 3, 2, 12, 1, 0), [4, 5, 6, 7]);
    assert_eq!(sample_nearest_at(&img, 3, 2, 12, -7, 9), [12, 13, 14, 15]);
    assert_eq!(sample_nearest_at(&img, 3, 2, 12, 10, -1), [8, 9, 10, 11]);
}

#[test]
fn bilinear_taps_take_neighbours_clamped() {
    let img = image();
    let t = bilinear_taps(&img, 3, 2, 12, 0, 0);
    assert_eq!((t.x0, t.y0), (0, 0));
    assert_eq!(t.p00, [0, 1, 2, 3]);
    assert_eq!(t.p10, [4, 5, 6, 7]);
    assert_eq!(t.p01, [12, 13, 14, 15]);
    assert_eq!(t.p11, [16, 17, 18, 19]);
    let t = bilinear_taps(&img, 3, 2, 12, 2, 1);
    assert_eq!(t.p00, [20, 21, 22, 23]);
    assert_eq!(t.p11, [20, 21, 22, 23]);
}

#[test]
fn focus_rect_is_window_plus_relative() {
    assert_eq!(
        focus_rect_from_extents((100, 50), (10, 20, 30, 40)),
        FocusRect { x: 110, y: 70, width: 30, height: 40 }
    );
}

#[test]
fn aim_point_follows_newest_source() {
    let rect = FocusRect { x: 100, y: 200, width: 50, height: 21 };
    assert_eq!(aim_point((1, 2), true, Some(rect), true, 40), (125, 250));
    assert_eq!(aim_point((1, 2), false, Some(rect), true, 40), (1, 2));
    assert_eq!(aim_point((1, 2), true, Some(rect), false, 40), (1, 2));
    assert_eq!(aim_point((1, 2), true, None, true, 40), (1, 2));
    let odd = FocusRect { x: 0, y: 0, width: -3, height: -3 };
    assert_eq!(aim_point((1, 2), true, Some(odd), true, 0), (-1, -1));
}

#[test]
fn focus_events_that_move_focus() {
    assert_eq!(focus_change(true, AccessibilityEvent::Focus), Some(FocusChange { caret_offset: None }));
    assert_eq!(
        focus_change(true, AccessibilityEvent::StateChanged { focused: true, enabled: true }),
        Some(FocusChange { caret_offset: None })
    );
    assert_eq!(focus_change(true, AccessibilityEvent::StateChanged { focused: true, enabled: false }), None);
    assert_eq!(focus_change(true, AccessibilityEvent::StateChanged { focused: false, enabled: true }), None);
    assert_eq!(
        focus_change(true, AccessibilityEvent::TextCaretMoved { position: 7 }),
        Some(FocusChange { caret_offset: Some(7) })
    );
    assert_eq!(focus_change(true, AccessibilityEvent::Other), None);
    assert_eq!(focus_change(false, AccessibilityEvent::Focus), None);
}

#[test]
fn cursor_tracker_reports_moves_only() {
    let mut t = CursorTracker::new();
    assert!(!t.observe((0, 0)));
    assert!(t.observe((5, 0)));
    assert!(!t.observe((5, 0)));
    assert!(t.observe((5, 1)));
    assert_eq!(t.last_pos, (5, 1));
}

fn reference_nearest_blit(src: &[u8], sw: i32, sh: i32, ss: i32, dst: &mut [u8], dw: i32, dh: i32, ds: i32) {
    let scale_x = sw as f64 / dw as f64;
    let scale_y = sh as f64 / dh as f64;
    for y in 0..dh {
        let yf = (y as f64 + 0.5) * scale_y - 0.5;
        for x in 0..dw {
            let xf = (x as f64 + 0.5) * scale_x - 0.5;
            let sx = (xf.round() as i32).max(0).min(sw - 1);
            let sy = (yf.round() as i32).max(0).min(sh - 1);
            let off = (sy * ss + sx * 4) as usize;
            let p = if off + 4 <= src.len() { [src[off], src[off + 1], src[off + 2], src[off + 3]] } else { [0, 0, 0, 0xFF] };
            let d = (y * ds + x * 4) as usize;
            if d + 4 <= dst.len() {
                dst[d..d + 4].copy_from_slice(&p);
            }
        }
    }
}

#[test]
fn nearest_blit_magnifies_like_float_sampling() {
    let (sw, sh, ss) = (3, 2, 12);
    let src = image();
    let (dw, dh, ds) = (7, 5, 28);
    let scale_x = sw as f64 / dw as f64;
    let scale_y = sh as f64 / dh as f64;
    let cols: Vec<i32> = (0..dw).map(|x| ((x as f64 + 0.5) * scale_x - 0.5).round() as i32).collect();
    let rows: Vec<i32> = (0..dh).map(|y| ((y as f64 + 0.5) * scale_y - 0.5).round() as i32).collect();
    let mut got = vec![0u8; (ds * dh) as usize];
    blit_nearest(&src, sw, sh, ss, &mut got, ds, &cols, &rows);
    let mut expected = vec![0u8; (ds * dh) as usize];
    reference_nearest_blit(&src, sw, sh, ss, &mut expected, dw, dh, ds);
    assert_eq!(got, expected);
    // Each destination pixel shows its clamped source pixel.
    for y in 0..dh {
        for x in 0..dw {
            let want = read_pixel(&src, ss, clampi(cols[x as usize], 0, sw - 1), clampi(rows[y as usize], 0, sh - 1));
            assert_eq!(read_pixel(&got, ds, x, y), want);
        }
    }
}

#[test]
fn nearest_blit_skips_pixels_outside_destination() {
    let src = image();
    let mut dst = vec![5u8; 10];
    blit_nearest(&src, 3, 2, 12, &mut dst, 8, &vec![0, 1, 2], &vec![0]);
    assert_eq!(dst, vec![0, 1, 2, 3, 4, 5, 6, 7, 5, 5]);
}

#[test]
fn nearest_blit_with_empty_source_leaves_destination() {
    let src = image();
    for &(w, h) in [(0, 2), (3, 0), (-1, -1), (i32::MIN + 1, 2)].iter() {
        let mut dst = vec![9u8; 16];
        blit_nearest(&src, w, h, 12, &mut dst, 8, &vec![0, 1], &vec![0, 1]);
        assert_eq!(dst, vec![9u8; 16]);
    }
}

#[test]
fn nearest_blit_at_unit_scale_copies_image() {
    let src = image();
    let (w, h, stride) = (3, 2, 12);
    let cols: Vec<i32> = (0..w).map(|x| ((x as f64 + 0.5) * 1.0 - 0.5).round() as i32).collect();
    let rows: Vec<i32> = (0..h).map(|y| ((y as f64 + 0.5) * 1.0 - 0.5).round() as i32).collect();
    assert_eq!(cols, vec![0, 1, 2]);
    assert_eq!(rows, vec![0, 1]);
    let mut dst = vec![0xAAu8; src.len()];
    blit_nearest(&src, w, h, stride, &mut dst, stride, &cols, &rows);
    assert_eq!(dst, src);
}

#[test]
fn active_window_geometry() {
    let w = ActiveWindow { at: [100, -20], size: [800, 600] };
    assert_eq!(w.geometry(), (100, -20, 800, 600));
}
