//! The magnifier's own state and the decisions it takes on each event from
//! the compositor: configure, close, keys, layout changes and when to ask
//! for a new screen capture.

use vstd::prelude::*;
use crate::dock::{DockPosition, LayoutRequest, layout_for, spec_layout_for};
use crate::capture::{
    BufferSpec, FrameAction, FrameEvent, ends_capture, frame_action, spec_frame_action,
};
use crate::geometry::{
    OutputGeometry, Rect, capture_fits, compute_capture_region, over_bar_fits,
    point_is_over_bar, spec_capture_region, spec_point_is_over_bar,
};

verus! {

/// What the magnifier remembers between compositor events.
#[derive(Clone, Copy, Debug)]
pub struct MagnifierState {
    /// Set once the program should leave its event loop.
    pub exit: bool,
    /// No configure event has arrived yet.
    pub first_configure: bool,
    /// The bar's size as last configured (0 before the first configure).
    pub width: u32,
    pub height: u32,
    /// The bar currently holds keyboard focus.
    pub keyboard_focus: bool,
    /// A screen capture has been requested and not yet finished.
    pub capture_in_flight: bool,
    /// When the last capture was requested (or the magnifier started), in
    /// nanoseconds on a monotonic clock.
    pub last_capture_request: u64,
    /// The layout last sent to the compositor.
    pub last_requested_thickness: u32,
    pub last_requested_position: DockPosition,
}

/// What to do about screen capture on this frame.
#[derive(Clone, Copy, PartialEq, Eq, Debug, Structural)]
pub enum CaptureAction {
    /// Keep showing what is there and try again on a later frame.
    Wait,
    /// The tracked point is over the bar: drop the last capture, show the
    /// placeholder, and capture nothing.
    ShowPlaceholder,
    /// Ask the compositor for this output-local region.
    Capture(Rect),
}

/// The size, in pixels and bytes per row, of the buffer a frame is drawn in.
#[derive(Clone, Copy, PartialEq, Eq, Debug, Structural)]
pub struct DisplayBuffer {
    pub width: i32,
    pub height: i32,
    pub stride: i32,
}

pub open spec fn max_u32(a: u32, b: u32) -> u32 {
    if a >= b {
        a
    } else {
        b
    }
}

/// The time from `since` to `now`, or 0 when `now` is earlier (a monotonic
/// clock's elapsed time saturates at zero).
pub open spec fn elapsed_since(since: u64, now: u64) -> int {
    if now >= since {
        now - since
    } else {
        0
    }
}

/// A new capture may be asked for: none is in flight and at least
/// `min_interval` has passed since the last request.
pub open spec fn capture_due(s: MagnifierState, now: u64, min_interval: u64) -> bool {
    !s.capture_in_flight && elapsed_since(s.last_capture_request, now) >= min_interval
}

/// The layout to send, if any, when the settings ask for `thickness` and
/// `position`: only a change from what was last sent, and never a zero
/// thickness.
pub open spec fn spec_pending_layout(
    s: MagnifierState,
    thickness: u32,
    position: DockPosition,
) -> Option<LayoutRequest> {
    if (thickness != s.last_requested_thickness || position != s.last_requested_position)
        && thickness > 0 {
        Some(spec_layout_for(thickness, position))
    } else {
        None
    }
}

/// The state once the pending layout, if any, has been sent.
pub open spec fn spec_after_layout(
    s: MagnifierState,
    thickness: u32,
    position: DockPosition,
) -> MagnifierState {
    if spec_pending_layout(s, thickness, position) is Some {
        MagnifierState {
            last_requested_thickness: thickness,
            last_requested_position: position,
            ..s
        }
    } else {
        s
    }
}

/// The arithmetic of a capture decision stays inside `i32` whenever the
/// decision gets as far as looking at the output.
pub open spec fn capture_plan_fits(
    s: MagnifierState,
    now: u64,
    min_interval: u64,
    output: Option<OutputGeometry>,
    point: (i32, i32),
    wanted_w: i32,
    wanted_h: i32,
) -> bool {
    (capture_due(s, now, min_interval) && output is Some) ==> {
        let g = output->Some_0;
        &&& over_bar_fits(g, s.last_requested_thickness, s.last_requested_position, point)
        &&& (!spec_point_is_over_bar(
            g,
            s.last_requested_thickness,
            s.last_requested_position,
            point,
        ) ==> capture_fits(g, wanted_w, wanted_h, point))
    }
}

/// The capture decision for one frame at time `now`.
pub open spec fn spec_capture_action(
    s: MagnifierState,
    now: u64,
    min_interval: u64,
    output: Option<OutputGeometry>,
    point: (i32, i32),
    wanted_w: i32,
    wanted_h: i32,
) -> CaptureAction {
    if !capture_due(s, now, min_interval) {
        CaptureAction::Wait
    } else {
        match output {
            None => CaptureAction::Wait,
            Some(g) => if spec_point_is_over_bar(
                g,
                s.last_requested_thickness,
                s.last_requested_position,
                point,
            ) {
                CaptureAction::ShowPlaceholder
            } else {
                CaptureAction::Capture(spec_capture_region(g, wanted_w, wanted_h, point))
            },
        }
    }
}

/// The state after the capture decision: a requested capture is in flight
/// and its time recorded; otherwise nothing changes.
pub open spec fn spec_after_request(
    s: MagnifierState,
    now: u64,
    min_interval: u64,
    output: Option<OutputGeometry>,
    point: (i32, i32),
    wanted_w: i32,
    wanted_h: i32,
) -> MagnifierState {
    if spec_capture_action(s, now, min_interval, output, point, wanted_w, wanted_h) is Capture {
        MagnifierState { capture_in_flight: true, last_capture_request: now, ..s }
    } else {
        s
    }
}

/// The state after a frame event: the events that end a capture clear the
/// capture in flight; the others change nothing.
pub open spec fn spec_after_frame(s: MagnifierState, event: FrameEvent) -> MagnifierState {
    if ends_capture(event) {
        MagnifierState { capture_in_flight: false, ..s }
    } else {
        s
    }
}

impl MagnifierState {
    /// The state at start-up (`now`), with the layout first sent to the
    /// compositor. The refresh interval counts from start-up.
    pub fn new(thickness: u32, position: DockPosition, now: u64) -> (r: MagnifierState)
        ensures
            !r.exit,
            r.first_configure,
            r.width == 0,
            r.height == 0,
            !r.keyboard_focus,
            !r.capture_in_flight,
            r.last_capture_request == now,
            r.last_requested_thickness == thickness,
            r.last_requested_position == position,
    {
        MagnifierState {
            exit: false,
            first_configure: true,
            width: 0,
            height: 0,
            keyboard_focus: false,
            capture_in_flight: false,
            last_capture_request: now,
            last_requested_thickness: thickness,
            last_requested_position: position,
        }
    }

    /// The compositor gave the bar its size (each at least 1). Returns
    /// whether this is the first configure, on which the bar draws at once.
    pub fn configure(&mut self, new_width: u32, new_height: u32) -> (draw_now: bool)
        ensures
            draw_now == old(self).first_configure,
            *final(self) == (MagnifierState {
                width: max_u32(new_width, 1),
                height: max_u32(new_height, 1),
                first_configure: false,
                ..*old(self)
            }),
    {
        self.width = if new_width > 1 {
            new_width
        } else {
            1
        };
        self.height = if new_height > 1 {
            new_height
        } else {
            1
        };
        let first = self.first_configure;
        self.first_configure = false;
        first
    }

    /// The compositor closed the bar: the program exits.
    pub fn closed(&mut self)
        ensures
            *final(self) == (MagnifierState { exit: true, ..*old(self) }),
    {
        self.exit = true;
    }

    /// A key was pressed while the bar had focus: Escape quits.
    pub fn press_key(&mut self, is_escape: bool)
        ensures
            *final(self) == (MagnifierState { exit: old(self).exit || is_escape, ..*old(self) }),
    {
        if is_escape {
            self.exit = true;
        }
    }

    /// Keyboard focus entered a surface; it counts only if it is the bar's.
    pub fn keyboard_enter(&mut self, on_bar: bool)
        ensures
            *final(self) == (MagnifierState {
                keyboard_focus: old(self).keyboard_focus || on_bar,
                ..*old(self)
            }),
    {
        if on_bar {
            self.keyboard_focus = true;
        }
    }

    /// Keyboard focus left a surface; it counts only if it is the bar's.
    pub fn keyboard_leave(&mut self, on_bar: bool)
        ensures
            *final(self) == (MagnifierState {
                keyboard_focus: old(self).keyboard_focus && !on_bar,
                ..*old(self)
            }),
    {
        if on_bar {
            self.keyboard_focus = false;
        }
    }

    /// When the settings' thickness or position differ from what was last
    /// sent, and the thickness is not 0, returns the layout to send and
    /// records it as sent.
    pub fn apply_pending_layout(&mut self, thickness: u32, position: DockPosition) -> (r: Option<
        LayoutRequest,
    >)
        ensures
            r == spec_pending_layout(*old(self), thickness, position),
            *final(self) == spec_after_layout(*old(self), thickness, position),
    {
        let changed = thickness != self.last_requested_thickness || position
            != self.last_requested_position;
        if changed && thickness > 0 {
            let req = layout_for(thickness, position);
            self.last_requested_thickness = thickness;
            self.last_requested_position = position;
            Some(req)
        } else {
            None
        }
    }

    /// Whether a capture may be asked for at time `now`: none is in flight
    /// and at least `min_interval` has passed since the last request.
    pub fn capture_is_due(&self, now: u64, min_interval: u64) -> (r: bool)
        ensures
            r == capture_due(*self, now, min_interval),
    {
        if self.capture_in_flight {
            return false;
        }
        let elapsed: u64 = if now >= self.last_capture_request {
            now - self.last_capture_request
        } else {
            0
        };
        elapsed >= min_interval
    }

    /// Decides whether to ask for a new capture at time `now`: not while
    /// one is in flight, not before `min_interval` has passed since the
    /// last request, not before an output is known, and not when the
    /// tracked `point` is over the bar itself (then the placeholder shows).
    /// Otherwise the region around the point is captured, the capture is
    /// marked in flight and `now` is recorded as its request time.
    pub fn maybe_request_capture(
        &mut self,
        now: u64,
        min_interval: u64,
        output: Option<OutputGeometry>,
        point: (i32, i32),
        wanted_w: i32,
        wanted_h: i32,
    ) -> (r: CaptureAction)
        requires
            capture_plan_fits(*old(self), now, min_interval, output, point, wanted_w, wanted_h),
        ensures
            r == spec_capture_action(*old(self), now, min_interval, output, point, wanted_w, wanted_h),
            *final(self) == spec_after_request(
                *old(self),
                now,
                min_interval,
                output,
                point,
                wanted_w,
                wanted_h,
            ),
    {
        if !self.capture_is_due(now, min_interval) {
            return CaptureAction::Wait;
        }
        match output {
            None => CaptureAction::Wait,
            Some(g) => {
                if point_is_over_bar(
                    g,
                    self.last_requested_thickness,
                    self.last_requested_position,
                    point,
                ) {
                    CaptureAction::ShowPlaceholder
                } else {
                    let region = compute_capture_region(g, wanted_w, wanted_h, point);
                    self.capture_in_flight = true;
                    self.last_capture_request = now;
                    CaptureAction::Capture(region)
                }
            },
        }
    }

    /// An event about the capture frame in flight, with the shape of the
    /// cached capture buffer: returns what to do (see `frame_action`), and
    /// ends the capture in flight on a finished copy, a failure, an
    /// unusable format or a buffer that could not be allocated.
    pub fn frame_event(&mut self, event: FrameEvent, cached: Option<BufferSpec>) -> (r:
        FrameAction)
        ensures
            r == spec_frame_action(event, cached),
            *final(self) == spec_after_frame(*old(self), event),
    {
        let r = frame_action(event, cached);
        match event {
            FrameEvent::UnknownFormat | FrameEvent::AllocationFailed | FrameEvent::Ready
            | FrameEvent::Failed => {
                self.capture_in_flight = false;
            },
            FrameEvent::BufferOffer(_) | FrameEvent::Other => {},
        }
        r
    }

    /// The buffer a frame is drawn in: the bar's size (at least 1 by 1) and
    /// 4 bytes per pixel.
    pub fn display_buffer(&self) -> (r: DisplayBuffer)
        requires
            i32::MIN <= (max_u32(self.width, 1) as i32) * 4 <= i32::MAX,
        ensures
            r.width == max_u32(self.width, 1) as i32,
            r.height == max_u32(self.height, 1) as i32,
            r.stride == (max_u32(self.width, 1) as i32) * 4,
    {
        let w = if self.width > 1 {
            self.width
        } else {
            1
        };
        let h = if self.height > 1 {
            self.height
        } else {
            1
        };
        let wi = w as i32;
        DisplayBuffer { width: wi, height: h as i32, stride: wi * 4 }
    }
}

/// Once a layout has been sent, the same settings ask for nothing more:
/// only a change of thickness or position (to a non-zero thickness) sends
/// a new layout, and the layout sent is the one for those settings.
pub proof fn lemma_layout_settles(s: MagnifierState, thickness: u32, position: DockPosition)
    ensures
        spec_pending_layout(spec_after_layout(s, thickness, position), thickness, position)
            is None,
        thickness == 0 ==> spec_pending_layout(s, thickness, position) is None,
        spec_pending_layout(s, thickness, position) matches Some(req) ==> req == spec_layout_for(
            thickness,
            position,
        ),
        (thickness == s.last_requested_thickness && position == s.last_requested_position)
            ==> spec_after_layout(s, thickness, position) == s,
{
}

/// A change of the settings' thickness or position, to a non-zero
/// thickness, is always sent: the layout for exactly those settings is
/// returned and both are recorded as sent, whichever of the two changed;
/// everything else the magnifier remembers stays as it was.
pub proof fn lemma_layout_change_is_sent(s: MagnifierState, thickness: u32, position: DockPosition)
    requires
        thickness > 0,
        thickness != s.last_requested_thickness || position != s.last_requested_position,
    ensures
        spec_pending_layout(s, thickness, position) == Some(spec_layout_for(thickness, position)),
        spec_after_layout(s, thickness, position).last_requested_thickness == thickness,
        spec_after_layout(s, thickness, position).last_requested_position == position,
        spec_after_layout(s, thickness, position).capture_in_flight == s.capture_in_flight,
        spec_after_layout(s, thickness, position).last_capture_request == s.last_capture_request,
        spec_after_layout(s, thickness, position).exit == s.exit,
        spec_after_layout(s, thickness, position).width == s.width,
        spec_after_layout(s, thickness, position).height == s.height,
{
}

/// A move of the bar to another edge, at the same thickness, is sent.
pub proof fn lemma_position_change_is_sent(s: MagnifierState, position: DockPosition)
    requires
        s.last_requested_thickness > 0,
        position != s.last_requested_position,
    ensures
        spec_pending_layout(s, s.last_requested_thickness, position) == Some(
            spec_layout_for(s.last_requested_thickness, position),
        ),
        spec_after_layout(s, s.last_requested_thickness, position).last_requested_position
            == position,
{
}

/// Once a capture is due (none in flight, the interval passed) and an
/// output is known, the decision is to capture the region around the point
/// whenever the point is not over the bar, wherever it lies, on the output
/// or off it; otherwise the placeholder shows. Nothing else changes the
/// state than marking the capture in flight at `now`.
pub proof fn lemma_due_capture_is_taken(
    s: MagnifierState,
    now: u64,
    min_interval: u64,
    g: OutputGeometry,
    point: (i32, i32),
    wanted_w: i32,
    wanted_h: i32,
)
    requires
        !s.capture_in_flight,
        now >= s.last_capture_request,
        now - s.last_capture_request >= min_interval,
    ensures
        !spec_point_is_over_bar(g, s.last_requested_thickness, s.last_requested_position, point)
            ==> spec_capture_action(s, now, min_interval, Some(g), point, wanted_w, wanted_h)
            == CaptureAction::Capture(spec_capture_region(g, wanted_w, wanted_h, point)),
        !spec_point_is_over_bar(g, s.last_requested_thickness, s.last_requested_position, point)
            ==> spec_after_request(s, now, min_interval, Some(g), point, wanted_w, wanted_h)
            == (MagnifierState { capture_in_flight: true, last_capture_request: now, ..s }),
        spec_point_is_over_bar(g, s.last_requested_thickness, s.last_requested_position, point)
            ==> spec_capture_action(s, now, min_interval, Some(g), point, wanted_w, wanted_h)
            == CaptureAction::ShowPlaceholder,
        spec_point_is_over_bar(g, s.last_requested_thickness, s.last_requested_position, point)
            ==> spec_after_request(s, now, min_interval, Some(g), point, wanted_w, wanted_h) == s,
{
}

/// No capture is asked for while one is in flight, before the refresh
/// interval has passed, before an output is known, or when the tracked
/// point is over the bar; a capture that is asked for takes the region
/// around the point.
pub proof fn lemma_capture_policy(
    s: MagnifierState,
    now: u64,
    min_interval: u64,
    output: Option<OutputGeometry>,
    point: (i32, i32),
    wanted_w: i32,
    wanted_h: i32,
)
    ensures
        ({
            let a = spec_capture_action(s, now, min_interval, output, point, wanted_w, wanted_h);
            &&& s.capture_in_flight ==> a == CaptureAction::Wait
            &&& elapsed_since(s.last_capture_request, now) < min_interval ==> a
                == CaptureAction::Wait
            &&& output is None ==> a == CaptureAction::Wait
            &&& (output matches Some(g) && spec_point_is_over_bar(
                g,
                s.last_requested_thickness,
                s.last_requested_position,
                point,
            )) ==> a !is Capture
            &&& a matches CaptureAction::Capture(r) ==> (output matches Some(g) && r
                == spec_capture_region(g, wanted_w, wanted_h, point))
        }),
{
}

/// One step of the capture cycle: a capture decision at a time, or an
/// event about the frame in flight.
#[derive(Clone, Copy, Debug)]
pub enum CaptureStep {
    Request {
        now: u64,
        output: Option<OutputGeometry>,
        point: (i32, i32),
        wanted_w: i32,
        wanted_h: i32,
    },
    Frame { event: FrameEvent },
}

/// The state after one step, with the refresh interval `min_interval`.
pub open spec fn spec_step(s: MagnifierState, step: CaptureStep, min_interval: u64) -> MagnifierState {
    match step {
        CaptureStep::Request { now, output, point, wanted_w, wanted_h } => spec_after_request(
            s,
            now,
            min_interval,
            output,
            point,
            wanted_w,
            wanted_h,
        ),
        CaptureStep::Frame { event } => spec_after_frame(s, event),
    }
}

/// The state after the first `n` steps from `s0`.
pub open spec fn state_after(
    s0: MagnifierState,
    steps: Seq<CaptureStep>,
    min_interval: u64,
    n: nat,
) -> MagnifierState
    decreases n,
{
    if n == 0 || n > steps.len() {
        s0
    } else {
        spec_step(state_after(s0, steps, min_interval, (n - 1) as nat), steps[n - 1], min_interval)
    }
}

/// Step `i` is a decision that asks for a capture.
pub open spec fn captures_at(
    s0: MagnifierState,
    steps: Seq<CaptureStep>,
    min_interval: u64,
    i: int,
) -> bool {
    &&& 0 <= i < steps.len()
    &&& steps[i] matches CaptureStep::Request { now, output, point, wanted_w, wanted_h }
    &&& spec_capture_action(
        state_after(s0, steps, min_interval, i as nat),
        now,
        min_interval,
        output,
        point,
        wanted_w,
        wanted_h,
    ) is Capture
}

/// Step `k` is a frame event that ends the capture in flight.
pub open spec fn ends_at(steps: Seq<CaptureStep>, k: int) -> bool {
    &&& 0 <= k < steps.len()
    &&& steps[k] matches CaptureStep::Frame { event }
    &&& ends_capture(event)
}

/// The time of a decision step (0 for a frame event).
pub open spec fn step_time(steps: Seq<CaptureStep>, k: int) -> int {
    match steps[k] {
        CaptureStep::Request { now, .. } => now as int,
        CaptureStep::Frame { .. } => 0,
    }
}

/// Decisions are taken at times that never go backwards.
pub open spec fn clock_monotone(steps: Seq<CaptureStep>) -> bool {
    forall|a: int, b: int|
        0 <= a < b < steps.len() && #[trigger] steps[a] is Request && #[trigger] steps[b] is Request
            ==> step_time(steps, a) <= step_time(steps, b)
}

proof fn lemma_in_flight_until_ended(
    s0: MagnifierState,
    steps: Seq<CaptureStep>,
    min_interval: u64,
    i: int,
    m: int,
)
    requires
        captures_at(s0, steps, min_interval, i),
        i < m <= steps.len(),
        forall|k: int| i < k < m ==> !#[trigger] ends_at(steps, k),
    ensures
        state_after(s0, steps, min_interval, m as nat).capture_in_flight,
    decreases m,
{
    if m > i + 1 {
        lemma_in_flight_until_ended(s0, steps, min_interval, i, m - 1);
        assert(!ends_at(steps, m - 1));
    }
}

proof fn lemma_last_request_recorded(
    s0: MagnifierState,
    steps: Seq<CaptureStep>,
    min_interval: u64,
    i: int,
    m: int,
)
    requires
        captures_at(s0, steps, min_interval, i),
        i < m <= steps.len(),
    ensures
        exists|k: int|
            i <= k < m && #[trigger] steps[k] is Request && state_after(
                s0,
                steps,
                min_interval,
                m as nat,
            ).last_capture_request == step_time(steps, k),
    decreases m,
{
    if m == i + 1 {
        assert(steps[i] is Request);
    } else {
        lemma_last_request_recorded(s0, steps, min_interval, i, m - 1);
        let k = choose|k: int|
            i <= k < m - 1 && #[trigger] steps[k] is Request && state_after(
                s0,
                steps,
                min_interval,
                (m - 1) as nat,
            ).last_capture_request == step_time(steps, k);
        if state_after(s0, steps, min_interval, m as nat).last_capture_request != state_after(
            s0,
            steps,
            min_interval,
            (m - 1) as nat,
        ).last_capture_request {
            assert(steps[m - 1] is Request);
        } else {
            assert(steps[k] is Request);
        }
    }
}

/// Between any two captures that are asked for, an event ends the first
/// (a finished copy, a failure, an unusable format or a failed allocation),
/// so no capture is asked for while another is in flight; and, the clock
/// never going backwards, the second is asked for at least `min_interval`
/// after the first.
pub proof fn lemma_capture_cycle(
    s0: MagnifierState,
    steps: Seq<CaptureStep>,
    min_interval: u64,
    i: int,
    j: int,
)
    requires
        i < j,
        captures_at(s0, steps, min_interval, i),
        captures_at(s0, steps, min_interval, j),
        clock_monotone(steps),
    ensures
        exists|k: int| i < k < j && #[trigger] ends_at(steps, k),
        step_time(steps, j) >= step_time(steps, i) + min_interval,
{
    if forall|k: int| i < k < j ==> !#[trigger] ends_at(steps, k) {
        lemma_in_flight_until_ended(s0, steps, min_interval, i, j);
    }
    lemma_last_request_recorded(s0, steps, min_interval, i, j);
    let k = choose|k: int|
        i <= k < j && #[trigger] steps[k] is Request && state_after(
            s0,
            steps,
            min_interval,
            j as nat,
        ).last_capture_request == step_time(steps, k);
    assert(steps[i] is Request);
    assert(steps[j] is Request);
    if k > i {
        assert(step_time(steps, i) <= step_time(steps, k));
    }
    assert(step_time(steps, k) <= step_time(steps, j));
}

} // verus!
