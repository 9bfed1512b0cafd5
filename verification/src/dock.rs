//! Where the bar docks and the layer-surface layout that follows from it.

use vstd::prelude::*;

verus! {

/// Which edge of the screen the bar is docked to.
#[derive(Clone, Copy, PartialEq, Eq, Debug, Structural)]
pub enum DockPosition {
    Top,
    Bottom,
    Left,
    Right,
}

impl Default for DockPosition {
    /// The bar docks to the top edge unless told otherwise.
    fn default() -> (r: Self)
        ensures
            r == DockPosition::Top,
    {
        DockPosition::Top
    }
}

/// The bar's thickness, in pixels, when no setting gives one.
pub open spec fn spec_default_thickness() -> u32 {
    200
}

/// The bar's thickness, in pixels, when no setting gives one.
pub fn default_thickness() -> (r: u32)
    ensures
        r == spec_default_thickness(),
{
    200
}

/// Top and bottom docking run the bar along a horizontal edge.
pub open spec fn spec_is_horizontal(position: DockPosition) -> bool {
    position == DockPosition::Top || position == DockPosition::Bottom
}

/// Whether the bar runs along a horizontal edge (docked top or bottom).
pub fn is_horizontal(position: DockPosition) -> (r: bool)
    ensures
        r == spec_is_horizontal(position),
{
    match position {
        DockPosition::Top | DockPosition::Bottom => true,
        DockPosition::Left | DockPosition::Right => false,
    }
}

/// The screen edges a layer surface is anchored to.
#[derive(Clone, Copy, PartialEq, Eq, Debug, Structural)]
pub struct AnchorEdges {
    pub top: bool,
    pub bottom: bool,
    pub left: bool,
    pub right: bool,
}

/// The bar is anchored to its own edge and to both edges across from it,
/// so it stretches the full length of its edge.
pub open spec fn spec_anchor_for(position: DockPosition) -> AnchorEdges {
    match position {
        DockPosition::Top => AnchorEdges { top: true, bottom: false, left: true, right: true },
        DockPosition::Bottom => AnchorEdges { top: false, bottom: true, left: true, right: true },
        DockPosition::Left => AnchorEdges { top: true, bottom: true, left: true, right: false },
        DockPosition::Right => AnchorEdges { top: true, bottom: true, left: false, right: true },
    }
}

/// The edges the bar is anchored to for a dock position.
pub fn anchor_for(position: DockPosition) -> (r: AnchorEdges)
    ensures
        r == spec_anchor_for(position),
{
    match position {
        DockPosition::Top => AnchorEdges { top: true, bottom: false, left: true, right: true },
        DockPosition::Bottom => AnchorEdges { top: false, bottom: true, left: true, right: true },
        DockPosition::Left => AnchorEdges { top: true, bottom: true, left: true, right: false },
        DockPosition::Right => AnchorEdges { top: true, bottom: true, left: false, right: true },
    }
}

/// What to ask the compositor for so the bar docks at an edge: the anchor,
/// the surface size (0 stretches along the anchored axis) and the
/// exclusive zone that pushes other windows out of the way.
#[derive(Clone, Copy, PartialEq, Eq, Debug, Structural)]
pub struct LayoutRequest {
    pub anchor: AnchorEdges,
    pub width: u32,
    pub height: u32,
    pub exclusive_zone: i32,
}

/// The layout for a thickness and a position: along a horizontal edge the
/// thickness is the height, along a vertical one the width; the exclusive
/// zone is the thickness as an `i32` (wrapping as `as` does).
pub open spec fn spec_layout_for(thickness: u32, position: DockPosition) -> LayoutRequest {
    LayoutRequest {
        anchor: spec_anchor_for(position),
        width: if spec_is_horizontal(position) {
            0
        } else {
            thickness
        },
        height: if spec_is_horizontal(position) {
            thickness
        } else {
            0
        },
        exclusive_zone: thickness as i32,
    }
}

/// The layer-surface layout that docks a bar of `thickness` pixels at
/// `position`.
pub fn layout_for(thickness: u32, position: DockPosition) -> (r: LayoutRequest)
    ensures
        r == spec_layout_for(thickness, position),
{
    let horizontal = is_horizontal(position);
    LayoutRequest {
        anchor: anchor_for(position),
        width: if horizontal {
            0
        } else {
            thickness
        },
        height: if horizontal {
            thickness
        } else {
            0
        },
        exclusive_zone: thickness as i32,
    }
}

/// Every dock position anchors the bar to its own edge and both edges
/// across from it, and never to the opposite edge; a horizontal bar is
/// anchored left and right.
pub proof fn lemma_anchor_shape(position: DockPosition)
    ensures
        ({
            let a = spec_anchor_for(position);
            &&& position == DockPosition::Top ==> a.top && !a.bottom
            &&& position == DockPosition::Bottom ==> a.bottom && !a.top
            &&& position == DockPosition::Left ==> a.left && !a.right
            &&& position == DockPosition::Right ==> a.right && !a.left
            &&& spec_is_horizontal(position) <==> (a.left && a.right)
            &&& !spec_is_horizontal(position) <==> (a.top && a.bottom)
        }),
{
}

/// The thickness is the bar's height when docked top or bottom and its
/// width when docked left or right; the other dimension is left to the
/// anchors (0), and the whole thickness is reserved as exclusive zone.
pub proof fn lemma_layout_thickness_axis(thickness: u32, position: DockPosition)
    ensures
        ({
            let l = spec_layout_for(thickness, position);
            &&& spec_is_horizontal(position) ==> l.height == thickness && l.width == 0
            &&& !spec_is_horizontal(position) ==> l.width == thickness && l.height == 0
            &&& thickness <= i32::MAX ==> l.exclusive_zone == thickness
            &&& l.anchor == spec_anchor_for(position)
        }),
{
}

} // verus!
