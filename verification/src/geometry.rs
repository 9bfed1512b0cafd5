//! Output geometry: where a monitor sits and how big it is, the bar's own
//! footprint on it, and the screen region captured around the tracked
//! point.

use vstd::prelude::*;
use crate::dock::{DockPosition, spec_is_horizontal};

verus! {

/// Widest monitor width drawing memory is set aside for, and the width
/// assumed for an output whose size is not known.
pub const MAX_ASSUMED_WIDTH: usize = 3840;

/// Tallest monitor height drawing memory is set aside for, and the height
/// assumed for an output whose size is not known.
pub const MAX_ASSUMED_HEIGHT: usize = 2160;

/// A video mode an output offers.
#[derive(Clone, Copy, Debug)]
pub struct OutputMode {
    pub dimensions: (i32, i32),
    pub current: bool,
}

/// What the compositor reports about an output.
#[derive(Debug)]
pub struct OutputInfo {
    pub location: (i32, i32),
    pub logical_position: Option<(i32, i32)>,
    pub logical_size: Option<(i32, i32)>,
    pub modes: Vec<OutputMode>,
}

/// A rectangle `(x, y, width, height)` in output-local pixels.
#[derive(Clone, Copy, PartialEq, Eq, Debug, Structural)]
pub struct Rect {
    pub x: i32,
    pub y: i32,
    pub width: i32,
    pub height: i32,
}

/// An output's place in the global layout and its size.
#[derive(Clone, Copy, Debug)]
pub struct OutputGeometry {
    pub offset: (i32, i32),
    pub size: (i32, i32),
}

/// The dimensions of the first mode marked current.
pub open spec fn first_current_mode(modes: Seq<OutputMode>) -> Option<(i32, i32)>
    decreases modes.len(),
{
    if modes.len() == 0 {
        None
    } else if modes[0].current {
        Some(modes[0].dimensions)
    } else {
        first_current_mode(modes.drop_first())
    }
}

/// Where an output sits in the global layout: its logical position when
/// known, else its physical location; `(0, 0)` with no information.
pub open spec fn spec_output_offset(info: Option<OutputInfo>) -> (i32, i32) {
    match info {
        None => (0, 0),
        Some(i) => match i.logical_position {
            Some(p) => p,
            None => i.location,
        },
    }
}

/// An output's size: its logical size when known, else the dimensions of
/// its current mode, else the largest size assumed.
pub open spec fn spec_output_size(info: Option<OutputInfo>) -> (i32, i32) {
    match info {
        None => (3840, 2160),
        Some(i) => match i.logical_size {
            Some(s) => s,
            None => match first_current_mode(i.modes@) {
                Some(d) => d,
                None => (3840, 2160),
            },
        },
    }
}

/// Where an output sits in the compositor's global layout (its top-left
/// corner, in the space Hyprland reports the cursor in).
pub fn output_offset(info: Option<&OutputInfo>) -> (r: (i32, i32))
    ensures
        r == spec_output_offset(match info {
            Some(i) => Some(*i),
            None => None,
        }),
{
    match info {
        None => (0, 0),
        Some(i) => match i.logical_position {
            Some(p) => p,
            None => i.location,
        },
    }
}

/// The dimensions of the first mode marked current, if any.
pub fn current_mode_dimensions(modes: &Vec<OutputMode>) -> (r: Option<(i32, i32)>)
    ensures
        r == first_current_mode(modes@),
{
    let mut k: usize = 0;
    assert(modes@.skip(0) =~= modes@);
    while k < modes.len()
        invariant
            k <= modes.len(),
            first_current_mode(modes@) == first_current_mode(modes@.skip(k as int)),
        decreases modes.len() - k,
    {
        assert(modes@.skip(k as int)[0] == modes@[k as int]);
        if modes[k].current {
            return Some(modes[k].dimensions);
        }
        assert(modes@.skip(k as int).drop_first() =~= modes@.skip(k + 1));
        k = k + 1;
    }
    assert(modes@.skip(k as int).len() == 0);
    None
}

/// An output's own size in pixels.
pub fn output_size(info: Option<&OutputInfo>) -> (r: (i32, i32))
    ensures
        r == spec_output_size(match info {
            Some(i) => Some(*i),
            None => None,
        }),
{
    match info {
        None => (MAX_ASSUMED_WIDTH as i32, MAX_ASSUMED_HEIGHT as i32),
        Some(i) => match i.logical_size {
            Some(s) => s,
            None => match current_mode_dimensions(&i.modes) {
                Some(d) => d,
                None => (MAX_ASSUMED_WIDTH as i32, MAX_ASSUMED_HEIGHT as i32),
            },
        },
    }
}

impl OutputGeometry {
    /// The geometry of an output from what is known about it.
    pub fn of(info: Option<&OutputInfo>) -> (r: OutputGeometry)
        ensures
            r.offset == spec_output_offset(match info {
                Some(i) => Some(*i),
                None => None,
            }),
            r.size == spec_output_size(match info {
                Some(i) => Some(*i),
                None => None,
            }),
    {
        OutputGeometry { offset: output_offset(info), size: output_size(info) }
    }
}

pub open spec fn fits_i32(v: int) -> bool {
    i32::MIN <= v <= i32::MAX
}

pub open spec fn max_i32(a: int, b: int) -> int {
    if a >= b {
        a
    } else {
        b
    }
}

pub open spec fn min_i32(a: int, b: int) -> int {
    if a <= b {
        a
    } else {
        b
    }
}

/// The footprint arithmetic stays inside `i32`: only a bar docked at the
/// bottom or the right subtracts its thickness from the output's height or
/// width.
pub open spec fn footprint_fits(
    out_w: i32,
    out_h: i32,
    thickness: u32,
    position: DockPosition,
) -> bool {
    match position {
        DockPosition::Bottom => fits_i32(out_h - (thickness as i32)),
        DockPosition::Right => fits_i32(out_w - (thickness as i32)),
        DockPosition::Top | DockPosition::Left => true,
    }
}

/// The bar's on-screen rectangle in output-local coordinates: only the
/// bottom and right positions sit away from the output's `(0, 0)` corner,
/// pushed back as far as the thickness but not past that corner.
pub open spec fn spec_bar_footprint(
    out_w: i32,
    out_h: i32,
    thickness: u32,
    position: DockPosition,
) -> Rect {
    let t = thickness as i32;
    match position {
        DockPosition::Top => Rect { x: 0, y: 0, width: out_w, height: t },
        DockPosition::Bottom => Rect {
            x: 0,
            y: max_i32(out_h - t, 0) as i32,
            width: out_w,
            height: t,
        },
        DockPosition::Left => Rect { x: 0, y: 0, width: t, height: out_h },
        DockPosition::Right => Rect {
            x: max_i32(out_w - t, 0) as i32,
            y: 0,
            width: t,
            height: out_h,
        },
    }
}

/// The bar's own rectangle on an output of `out_w` by `out_h` pixels.
pub fn bar_footprint(out_w: i32, out_h: i32, thickness: u32, position: DockPosition) -> (r: Rect)
    requires
        footprint_fits(out_w, out_h, thickness, position),
    ensures
        r == spec_bar_footprint(out_w, out_h, thickness, position),
{
    let t = thickness as i32;
    match position {
        DockPosition::Top => Rect { x: 0, y: 0, width: out_w, height: t },
        DockPosition::Bottom => {
            let d = out_h - t;
            Rect {
                x: 0,
                y: if d > 0 {
                    d
                } else {
                    0
                },
                width: out_w,
                height: t,
            }
        },
        DockPosition::Left => Rect { x: 0, y: 0, width: t, height: out_h },
        DockPosition::Right => {
            let d = out_w - t;
            Rect {
                x: if d > 0 {
                    d
                } else {
                    0
                },
                y: 0,
                width: t,
                height: out_h,
            }
        },
    }
}

/// A point given in global coordinates, moved into an output's own space.
pub open spec fn local_point(geometry: OutputGeometry, point: (i32, i32)) -> (int, int) {
    (point.0 - geometry.offset.0, point.1 - geometry.offset.1)
}

/// The over-the-bar test's arithmetic stays inside `i32`.
pub open spec fn over_bar_fits(
    geometry: OutputGeometry,
    thickness: u32,
    position: DockPosition,
    point: (i32, i32),
) -> bool {
    let b = spec_bar_footprint(geometry.size.0, geometry.size.1, thickness, position);
    &&& footprint_fits(geometry.size.0, geometry.size.1, thickness, position)
    &&& fits_i32(local_point(geometry, point).0)
    &&& fits_i32(local_point(geometry, point).1)
    &&& fits_i32(b.x + b.width)
    &&& fits_i32(b.y + b.height)
}

/// Whether a global point falls inside the bar's footprint on the output.
pub open spec fn spec_point_is_over_bar(
    geometry: OutputGeometry,
    thickness: u32,
    position: DockPosition,
    point: (i32, i32),
) -> bool {
    let b = spec_bar_footprint(geometry.size.0, geometry.size.1, thickness, position);
    let (lx, ly) = local_point(geometry, point);
    lx >= b.x && lx < b.x + b.width && ly >= b.y && ly < b.y + b.height
}

/// True if the global point lies inside the bar's own footprint, where a
/// capture would only show the bar magnifying itself.
pub fn point_is_over_bar(
    geometry: OutputGeometry,
    thickness: u32,
    position: DockPosition,
    point: (i32, i32),
) -> (r: bool)
    requires
        over_bar_fits(geometry, thickness, position, point),
    ensures
        r == spec_point_is_over_bar(geometry, thickness, position, point),
{
    let lx = point.0 - geometry.offset.0;
    let ly = point.1 - geometry.offset.1;
    let b = bar_footprint(geometry.size.0, geometry.size.1, thickness, position);
    lx >= b.x && lx < b.x + b.width && ly >= b.y && ly < b.y + b.height
}

/// `v` clamped into `lo..=hi` (for `lo <= hi`).
pub open spec fn clamp_int(v: int, lo: int, hi: int) -> int {
    if v < lo {
        lo
    } else if v > hi {
        hi
    } else {
        v
    }
}

/// The capture box's width on an output `out` pixels wide, from the width
/// the zoom asks for: no wider than the output (taken as at least 1).
pub open spec fn capture_extent(wanted: i32, out: i32) -> int {
    min_i32(wanted as int, max_i32(out as int, 1))
}

/// The capture box's left (or top) edge: centred on the point, then
/// clamped so the box stays on the output.
pub open spec fn capture_start(local: int, extent: int, out: i32) -> int {
    clamp_int(local - half_toward_zero(extent), 0, max_i32(out - extent, 0))
}

/// The capture region's arithmetic stays inside `i32`.
pub open spec fn capture_fits(
    geometry: OutputGeometry,
    wanted_w: i32,
    wanted_h: i32,
    point: (i32, i32),
) -> bool {
    let (lx, ly) = local_point(geometry, point);
    let cw = capture_extent(wanted_w, geometry.size.0);
    let ch = capture_extent(wanted_h, geometry.size.1);
    &&& fits_i32(lx)
    &&& fits_i32(ly)
    &&& fits_i32(lx - half_toward_zero(cw))
    &&& fits_i32(ly - half_toward_zero(ch))
    &&& fits_i32(geometry.size.0 - cw)
    &&& fits_i32(geometry.size.1 - ch)
}

/// The region captured around a global point, in output-local pixels.
pub open spec fn spec_capture_region(
    geometry: OutputGeometry,
    wanted_w: i32,
    wanted_h: i32,
    point: (i32, i32),
) -> Rect {
    let (lx, ly) = local_point(geometry, point);
    let cw = capture_extent(wanted_w, geometry.size.0);
    let ch = capture_extent(wanted_h, geometry.size.1);
    Rect {
        x: capture_start(lx, cw, geometry.size.0) as i32,
        y: capture_start(ly, ch, geometry.size.1) as i32,
        width: cw as i32,
        height: ch as i32,
    }
}

/// Truncating halving, as `i32 / 2` computes it.
pub open spec fn half_toward_zero(v: int) -> int {
    if v >= 0 {
        v / 2
    } else {
        -((-v) / 2)
    }
}

/// The region to capture: a box of the wanted size (no larger than the
/// output) centred on `point` (global coordinates), moved into the
/// output's own coordinates and clamped so it stays fully on the output.
/// `wanted_w` and `wanted_h` are the bar's size divided by the zoom
/// factor, rounded, at least 1.
pub fn compute_capture_region(
    geometry: OutputGeometry,
    wanted_w: i32,
    wanted_h: i32,
    point: (i32, i32),
) -> (r: Rect)
    requires
        capture_fits(geometry, wanted_w, wanted_h, point),
    ensures
        r == spec_capture_region(geometry, wanted_w, wanted_h, point),
{
    let (out_w, out_h) = geometry.size;
    let lx = point.0 - geometry.offset.0;
    let ly = point.1 - geometry.offset.1;
    let max_w = if out_w > 1 {
        out_w
    } else {
        1
    };
    let max_h = if out_h > 1 {
        out_h
    } else {
        1
    };
    let cw = if wanted_w < max_w {
        wanted_w
    } else {
        max_w
    };
    let ch = if wanted_h < max_h {
        wanted_h
    } else {
        max_h
    };
    let room_w = if out_w - cw > 0 {
        out_w - cw
    } else {
        0
    };
    let room_h = if out_h - ch > 0 {
        out_h - ch
    } else {
        0
    };
    let sx = lx - cw / 2;
    let sy = ly - ch / 2;
    let x = if sx < 0 {
        0
    } else if sx > room_w {
        room_w
    } else {
        sx
    };
    let y = if sy < 0 {
        0
    } else if sy > room_h {
        room_h
    } else {
        sy
    };
    Rect { x, y, width: cw, height: ch }
}

/// The capture box always lies fully inside the output it is taken from:
/// at least one pixel, no larger than the output, and clamped to its
/// bounds; while the box fits around the point it is centred on it, and
/// once the point leaves the output the box stays against the nearest edge.
pub proof fn lemma_capture_region_on_output(
    geometry: OutputGeometry,
    wanted_w: i32,
    wanted_h: i32,
    point: (i32, i32),
)
    requires
        wanted_w >= 1,
        wanted_h >= 1,
        geometry.size.0 >= 1,
        geometry.size.1 >= 1,
        capture_fits(geometry, wanted_w, wanted_h, point),
    ensures
        ({
            let r = spec_capture_region(geometry, wanted_w, wanted_h, point);
            let (lx, ly) = local_point(geometry, point);
            &&& 1 <= r.width <= geometry.size.0
            &&& 1 <= r.height <= geometry.size.1
            &&& 0 <= r.x && r.x + r.width <= geometry.size.0
            &&& 0 <= r.y && r.y + r.height <= geometry.size.1
            &&& r.width == min_i32(wanted_w as int, geometry.size.0 as int)
            &&& r.height == min_i32(wanted_h as int, geometry.size.1 as int)
            &&& (0 <= lx - r.width / 2 <= geometry.size.0 - r.width ==> r.x == lx - r.width / 2)
            &&& (0 <= ly - r.height / 2 <= geometry.size.1 - r.height ==> r.y == ly - r.height
                / 2)
            &&& (lx < r.width / 2 ==> r.x == 0)
            &&& (ly < r.height / 2 ==> r.y == 0)
            &&& (lx - r.width / 2 > geometry.size.0 - r.width ==> r.x == geometry.size.0
                - r.width)
            &&& (ly - r.height / 2 > geometry.size.1 - r.height ==> r.y == geometry.size.1
                - r.height)
        }),
{
}

/// The bar's footprint lies on the output whenever the bar is no thicker
/// than the output, and it spans the output along the docked edge.
pub proof fn lemma_footprint_on_output(
    out_w: i32,
    out_h: i32,
    thickness: u32,
    position: DockPosition,
)
    requires
        footprint_fits(out_w, out_h, thickness, position),
        thickness <= i32::MAX,
        out_w >= 0,
        out_h >= 0,
        spec_is_horizontal(position) ==> thickness <= out_h,
        !spec_is_horizontal(position) ==> thickness <= out_w,
    ensures
        ({
            let b = spec_bar_footprint(out_w, out_h, thickness, position);
            &&& 0 <= b.x && b.x + b.width <= out_w
            &&& 0 <= b.y && b.y + b.height <= out_h
            &&& spec_is_horizontal(position) ==> b.width == out_w && b.height == thickness
            &&& !spec_is_horizontal(position) ==> b.height == out_h && b.width == thickness
            &&& (position == DockPosition::Top || position == DockPosition::Left) ==> b.x == 0
                && b.y == 0
            &&& position == DockPosition::Bottom ==> b.y + b.height == out_h
            &&& position == DockPosition::Right ==> b.x + b.width == out_w
        }),
{
}

/// Where the bar is, by dock position: a point is over the bar exactly when
/// its output-local position `(lx, ly)` lies on the output's strip along the
/// docked edge, as thick as the bar: the top `thickness` rows, the bottom
/// `thickness` rows, the left or the right `thickness` columns. A bar
/// thicker than the output starts at the output's near edge and reaches
/// `thickness` pixels in.
pub proof fn lemma_over_bar_by_position(
    geometry: OutputGeometry,
    thickness: u32,
    position: DockPosition,
    point: (i32, i32),
)
    requires
        thickness <= i32::MAX,
        geometry.size.0 >= 0,
        geometry.size.1 >= 0,
    ensures
        ({
            let (out_w, out_h) = (geometry.size.0 as int, geometry.size.1 as int);
            let t = thickness as int;
            let lx = point.0 - geometry.offset.0;
            let ly = point.1 - geometry.offset.1;
            let over = spec_point_is_over_bar(geometry, thickness, position, point);
            &&& position == DockPosition::Top ==> (over <==> (0 <= lx < out_w && 0 <= ly < t))
            &&& position == DockPosition::Left ==> (over <==> (0 <= lx < t && 0 <= ly < out_h))
            &&& (position == DockPosition::Bottom && t <= out_h) ==> (over <==> (0 <= lx < out_w
                && out_h - t <= ly < out_h))
            &&& (position == DockPosition::Bottom && t > out_h) ==> (over <==> (0 <= lx < out_w
                && 0 <= ly < t))
            &&& (position == DockPosition::Right && t <= out_w) ==> (over <==> (out_w - t <= lx
                < out_w && 0 <= ly < out_h))
            &&& (position == DockPosition::Right && t > out_w) ==> (over <==> (0 <= lx < t && 0
                <= ly < out_h))
        }),
{
}

} // verus!
