//! Screen-capture frames: the events the compositor sends about a capture
//! in flight, what each asks the magnifier to do, and when the capture
//! buffer already allocated can be reused.

use vstd::prelude::*;

verus! {

/// The shape of a capture buffer: size, bytes per row, and pixel format
/// (the `wl_shm` format code).
#[derive(Clone, Copy, PartialEq, Eq, Debug, Structural)]
pub struct BufferSpec {
    pub width: i32,
    pub height: i32,
    pub stride: i32,
    pub format: u32,
}

impl BufferSpec {
    /// The buffer the compositor asks for, its sizes taken as `i32` (as
    /// `as` converts them).
    pub fn from_offer(width: u32, height: u32, stride: u32, format: u32) -> (r: BufferSpec)
        ensures
            r == (BufferSpec {
                width: width as i32,
                height: height as i32,
                stride: stride as i32,
                format,
            }),
    {
        BufferSpec { width: width as i32, height: height as i32, stride: stride as i32, format }
    }
}

/// A new buffer is needed when none is cached or the cached one differs
/// in size, stride or format from the offer.
pub open spec fn spec_needs_new_buffer(existing: Option<BufferSpec>, offered: BufferSpec) -> bool {
    match existing {
        None => true,
        Some(e) => e != offered,
    }
}

/// Whether the cached capture buffer must be replaced to take `offered`.
pub fn needs_new_buffer(existing: Option<BufferSpec>, offered: BufferSpec) -> (r: bool)
    ensures
        r == spec_needs_new_buffer(existing, offered),
{
    match existing {
        None => true,
        Some(e) => e.width != offered.width || e.height != offered.height || e.stride
            != offered.stride || e.format != offered.format,
    }
}

/// Once a buffer for an offer is cached, the same offer reuses it; only a
/// change of size, stride or format allocates again.
pub proof fn lemma_buffer_reused(spec: BufferSpec, offered: BufferSpec)
    ensures
        !spec_needs_new_buffer(Some(spec), spec),
        spec_needs_new_buffer(Some(spec), offered) <==> spec != offered,
        spec_needs_new_buffer(None, offered),
{
}

/// An event about the capture frame in flight.
#[derive(Clone, Copy, PartialEq, Eq, Debug, Structural)]
pub enum FrameEvent {
    /// The compositor offers to copy into a buffer of this shape (its
    /// pixel format recognised).
    BufferOffer(BufferSpec),
    /// The compositor offered a pixel format that is not recognised.
    UnknownFormat,
    /// A buffer for the offer could not be allocated.
    AllocationFailed,
    /// The copy is done; the cached buffer holds the captured pixels.
    Ready,
    /// The compositor could not capture.
    Failed,
    /// Any other frame event.
    Other,
}

/// What to do about a frame event.
#[derive(Clone, Copy, PartialEq, Eq, Debug, Structural)]
pub enum FrameAction {
    /// Allocate a buffer of this shape, cache it, and have the frame copied
    /// into it.
    AllocateThenCopy(BufferSpec),
    /// Have the frame copied into the cached buffer.
    CopyIntoCached,
    /// Keep the cached buffer's pixels as the latest capture, then destroy
    /// the frame.
    KeepCapture,
    /// Destroy the frame; the latest capture stays as it was.
    DiscardFrame,
    /// Nothing to do.
    Ignore,
}

/// The events that end the capture in flight: a finished copy, a failure,
/// an unusable format, or a buffer that could not be had.
pub open spec fn ends_capture(event: FrameEvent) -> bool {
    match event {
        FrameEvent::UnknownFormat | FrameEvent::AllocationFailed | FrameEvent::Ready
        | FrameEvent::Failed => true,
        FrameEvent::BufferOffer(_) | FrameEvent::Other => false,
    }
}

/// The action for a frame event, given the shape of the cached buffer.
pub open spec fn spec_frame_action(event: FrameEvent, cached: Option<BufferSpec>) -> FrameAction {
    match event {
        FrameEvent::BufferOffer(offered) => if spec_needs_new_buffer(cached, offered) {
            FrameAction::AllocateThenCopy(offered)
        } else {
            FrameAction::CopyIntoCached
        },
        FrameEvent::UnknownFormat | FrameEvent::AllocationFailed | FrameEvent::Failed =>
            FrameAction::DiscardFrame,
        FrameEvent::Ready => FrameAction::KeepCapture,
        FrameEvent::Other => FrameAction::Ignore,
    }
}

/// Decides what a frame event asks for: an offer is copied into the cached
/// buffer when its shape matches, else into a newly allocated one; a
/// finished copy is kept; an unusable format, a failed allocation or a
/// failed capture discards the frame.
pub fn frame_action(event: FrameEvent, cached: Option<BufferSpec>) -> (r: FrameAction)
    ensures
        r == spec_frame_action(event, cached),
{
    match event {
        FrameEvent::BufferOffer(offered) => {
            if needs_new_buffer(cached, offered) {
                FrameAction::AllocateThenCopy(offered)
            } else {
                FrameAction::CopyIntoCached
            }
        },
        FrameEvent::UnknownFormat | FrameEvent::AllocationFailed | FrameEvent::Failed => {
            FrameAction::DiscardFrame
        },
        FrameEvent::Ready => FrameAction::KeepCapture,
        FrameEvent::Other => FrameAction::Ignore,
    }
}

} // verus!
