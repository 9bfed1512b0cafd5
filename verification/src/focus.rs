//! Following the mouse and, optionally, keyboard focus: which point to
//! magnify, where a focused element sits on screen, and which
//! accessibility events move the focus.

use vstd::prelude::*;
use crate::geometry::{fits_i32, half_toward_zero};

verus! {

/// A focused element's bounding box, in screen pixel coordinates (the same
/// global coordinate space Hyprland reports the cursor in).
#[derive(Clone, Copy, PartialEq, Eq, Debug, Structural)]
pub struct FocusRect {
    pub x: i32,
    pub y: i32,
    pub width: i32,
    pub height: i32,
}

/// Where the compositor says the active window sits: its top-left corner
/// `at` and its `size`, in global screen pixels.
#[derive(Clone, Copy, Debug)]
pub struct ActiveWindow {
    pub at: [i32; 2],
    pub size: [i32; 2],
}

impl ActiveWindow {
    /// The window's geometry as `(x, y, width, height)`.
    pub fn geometry(&self) -> (r: (i32, i32, i32, i32))
        ensures
            r == (self.at@[0], self.at@[1], self.size@[0], self.size@[1]),
    {
        (self.at[0], self.at[1], self.size[0], self.size[1])
    }
}

/// The screen position of an element: the window's position plus the
/// element's position inside that window.
pub open spec fn spec_focus_rect_from_extents(
    window: (i32, i32),
    relative: (i32, i32, i32, i32),
) -> FocusRect {
    FocusRect {
        x: (window.0 + relative.0) as i32,
        y: (window.1 + relative.1) as i32,
        width: relative.2,
        height: relative.3,
    }
}

/// An element's on-screen rectangle from its window-relative extents
/// `(x, y, width, height)` and the screen position of its window.
pub fn focus_rect_from_extents(window: (i32, i32), relative: (i32, i32, i32, i32)) -> (r:
    FocusRect)
    requires
        fits_i32(window.0 + relative.0),
        fits_i32(window.1 + relative.1),
    ensures
        r == spec_focus_rect_from_extents(window, relative),
{
    FocusRect {
        x: window.0 + relative.0,
        y: window.1 + relative.1,
        width: relative.2,
        height: relative.3,
    }
}

/// Whether the aim point is taken from the focused element.
pub open spec fn follows_focus(
    follow_keypress: bool,
    focus: Option<FocusRect>,
    focus_is_newer: bool,
) -> bool {
    follow_keypress && focus is Some && focus_is_newer
}

/// The centre of a focused element, moved down by the correction (which
/// makes up for toolkits that leave their title bar out).
pub open spec fn focus_center(rect: FocusRect, focus_y_correction: i32) -> (int, int) {
    (
        rect.x + half_toward_zero(rect.width as int),
        rect.y + half_toward_zero(rect.height as int) + focus_y_correction,
    )
}

/// The point to magnify: the mouse cursor, or, when following keyboard
/// focus is on and the focused element changed more recently than the
/// mouse last moved, the centre of that element.
pub open spec fn spec_aim_point(
    mouse: (i32, i32),
    follow_keypress: bool,
    focus: Option<FocusRect>,
    focus_is_newer: bool,
    focus_y_correction: i32,
) -> (i32, i32) {
    if follows_focus(follow_keypress, focus, focus_is_newer) {
        let c = focus_center(focus->Some_0, focus_y_correction);
        (c.0 as i32, c.1 as i32)
    } else {
        mouse
    }
}

/// The point to magnify, in global coordinates. `focus_is_newer` says
/// whether the focused element was recorded after the mouse last moved.
pub fn aim_point(
    mouse: (i32, i32),
    follow_keypress: bool,
    focus: Option<FocusRect>,
    focus_is_newer: bool,
    focus_y_correction: i32,
) -> (r: (i32, i32))
    requires
        follows_focus(follow_keypress, focus, focus_is_newer) ==> ({
            let c = focus_center(focus->Some_0, focus_y_correction);
            &&& fits_i32(c.0)
            &&& fits_i32(focus->Some_0.y + half_toward_zero(focus->Some_0.height as int))
            &&& fits_i32(c.1)
        }),
    ensures
        r == spec_aim_point(mouse, follow_keypress, focus, focus_is_newer, focus_y_correction),
{
    if follow_keypress {
        if let Some(rect) = focus {
            if focus_is_newer {
                let center_y = rect.y + rect.height / 2 + focus_y_correction;
                return (rect.x + rect.width / 2, center_y);
            }
        }
    }
    mouse
}

/// An accessibility event, as far as focus tracking tells events apart.
#[derive(Clone, Copy, PartialEq, Eq, Debug, Structural)]
pub enum AccessibilityEvent {
    /// An element received focus.
    Focus,
    /// An element's state changed; `focused` says whether the state is the
    /// focused state, `enabled` whether it was switched on.
    StateChanged { focused: bool, enabled: bool },
    /// The text caret moved to `position` within an element.
    TextCaretMoved { position: i32 },
    /// Anything else.
    Other,
}

/// A change of focus worth following: the element to look up, with the
/// caret offset when a caret move caused it.
#[derive(Clone, Copy, PartialEq, Eq, Debug, Structural)]
pub struct FocusChange {
    pub caret_offset: Option<i32>,
}

/// Which events move the tracked focus while following is switched on:
/// focus events, a focused state being switched on, and caret moves.
pub open spec fn spec_focus_change(enabled: bool, event: AccessibilityEvent) -> Option<
    FocusChange,
> {
    if !enabled {
        None
    } else {
        match event {
            AccessibilityEvent::Focus => Some(FocusChange { caret_offset: None }),
            AccessibilityEvent::StateChanged { focused, enabled: on } => if focused && on {
                Some(FocusChange { caret_offset: None })
            } else {
                None
            },
            AccessibilityEvent::TextCaretMoved { position } => Some(
                FocusChange { caret_offset: Some(position) },
            ),
            AccessibilityEvent::Other => None,
        }
    }
}

/// Decides whether an accessibility event should move the tracked focus;
/// nothing does while following keyboard focus is switched off.
pub fn focus_change(follow_enabled: bool, event: AccessibilityEvent) -> (r: Option<FocusChange>)
    ensures
        r == spec_focus_change(follow_enabled, event),
{
    if !follow_enabled {
        return None;
    }
    match event {
        AccessibilityEvent::Focus => Some(FocusChange { caret_offset: None }),
        AccessibilityEvent::StateChanged { focused, enabled } => {
            if focused && enabled {
                Some(FocusChange { caret_offset: None })
            } else {
                None
            }
        },
        AccessibilityEvent::TextCaretMoved { position } => Some(
            FocusChange { caret_offset: Some(position) },
        ),
        AccessibilityEvent::Other => None,
    }
}

/// The last cursor position the background poller published.
#[derive(Clone, Copy, Debug)]
pub struct CursorTracker {
    pub last_pos: (i32, i32),
}

impl CursorTracker {
    /// A tracker that has seen nothing yet, taken as `(0, 0)`.
    pub fn new() -> (r: CursorTracker)
        ensures
            r.last_pos == (0i32, 0i32),
    {
        CursorTracker { last_pos: (0, 0) }
    }

    /// Records a polled position; returns whether it moved, which is when
    /// it is published with a fresh timestamp.
    pub fn observe(&mut self, pos: (i32, i32)) -> (moved: bool)
        ensures
            moved == (pos != old(self).last_pos),
            final(self).last_pos == if moved {
                pos
            } else {
                old(self).last_pos
            },
    {
        if pos.0 != self.last_pos.0 || pos.1 != self.last_pos.1 {
            self.last_pos = pos;
            true
        } else {
            false
        }
    }
}

/// Keyboard focus is followed only when switched on, present, and newer
/// than the last mouse move; otherwise the view stays on the mouse.
pub proof fn lemma_aim_follows_latest(
    mouse: (i32, i32),
    follow_keypress: bool,
    focus: Option<FocusRect>,
    focus_is_newer: bool,
    focus_y_correction: i32,
)
    ensures
        !follow_keypress ==> spec_aim_point(
            mouse,
            follow_keypress,
            focus,
            focus_is_newer,
            focus_y_correction,
        ) == mouse,
        !focus_is_newer ==> spec_aim_point(
            mouse,
            follow_keypress,
            focus,
            focus_is_newer,
            focus_y_correction,
        ) == mouse,
        focus is None ==> spec_aim_point(
            mouse,
            follow_keypress,
            focus,
            focus_is_newer,
            focus_y_correction,
        ) == mouse,
{
}

/// While following keyboard focus is off, no accessibility event moves
/// the tracked focus.
pub proof fn lemma_disabled_ignores_events(event: AccessibilityEvent)
    ensures
        spec_focus_change(false, event) is None,
{
}

/// Following keyboard focus aims at the element's centre, halves truncated
/// toward zero, moved down by the correction (of either sign): the aim point
/// lies `q` columns right of the element's left edge with `2 * q` equal to
/// the width or one short of it toward zero, and likewise `q` rows below
/// its top edge before the correction is added.
pub proof fn lemma_focus_aim_is_centre(mouse: (i32, i32), rect: FocusRect, focus_y_correction: i32)
    requires
        fits_i32(rect.x + half_toward_zero(rect.width as int)),
        fits_i32(rect.y + half_toward_zero(rect.height as int) + focus_y_correction),
    ensures
        ({
            let r = spec_aim_point(mouse, true, Some(rect), true, focus_y_correction);
            let qx = r.0 - rect.x;
            let qy = r.1 - rect.y - focus_y_correction;
            &&& rect.width >= 0 ==> 0 <= rect.width - 2 * qx <= 1
            &&& rect.width < 0 ==> 0 <= 2 * qx - rect.width <= 1
            &&& rect.height >= 0 ==> 0 <= rect.height - 2 * qy <= 1
            &&& rect.height < 0 ==> 0 <= 2 * qy - rect.height <= 1
        }),
{
}

/// Changing the focus correction from `c2` to `c1` moves the aim point down
/// by exactly `c1 - c2` and leaves its column alone.
pub proof fn lemma_correction_shifts_aim(mouse: (i32, i32), rect: FocusRect, c1: i32, c2: i32)
    requires
        fits_i32(rect.x + half_toward_zero(rect.width as int)),
        fits_i32(rect.y + half_toward_zero(rect.height as int) + c1),
        fits_i32(rect.y + half_toward_zero(rect.height as int) + c2),
    ensures
        spec_aim_point(mouse, true, Some(rect), true, c1).0 == spec_aim_point(
            mouse,
            true,
            Some(rect),
            true,
            c2,
        ).0,
        spec_aim_point(mouse, true, Some(rect), true, c1).1 - spec_aim_point(
            mouse,
            true,
            Some(rect),
            true,
            c2,
        ).1 == c1 - c2,
{
}

/// While following is on, every caret move moves the focus and carries its
/// offset, whatever the offset; a focus event, or a focused state switched
/// on, moves it without an offset; any other state change, and any other
/// event, leaves it.
pub proof fn lemma_caret_moves_focus(event: AccessibilityEvent)
    ensures
        event matches AccessibilityEvent::TextCaretMoved { position } ==> spec_focus_change(
            true,
            event,
        ) == Some(FocusChange { caret_offset: Some(position) }),
        event == AccessibilityEvent::Focus ==> spec_focus_change(true, event) == Some(
            FocusChange { caret_offset: None },
        ),
        event == (AccessibilityEvent::StateChanged { focused: true, enabled: true })
            ==> spec_focus_change(true, event) == Some(FocusChange { caret_offset: None }),
        event matches AccessibilityEvent::StateChanged { focused, enabled } && !(focused
            && enabled) ==> spec_focus_change(true, event) is None,
        event == AccessibilityEvent::Other ==> spec_focus_change(true, event) is None,
{
}

} // verus!
