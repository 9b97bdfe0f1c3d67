//! The decisions of the windowed viewer: how it answers window events, the
//! size it configures its surface with, which surface format it prefers, what
//! it does with each acquired frame, and how many workgroups cover the image.

use vstd::prelude::*;
use crate::readback::{ceil_div, div_ceil_u32};

verus! {

/// A key of interest to the viewer.
#[derive(Clone, Copy, Debug, PartialEq, Eq, Structural)]
pub enum Key {
    Escape,
    S,
    Other,
}

/// A window event, as far as the viewer tells events apart.
#[derive(Clone, Copy, Debug, PartialEq, Eq, Structural)]
pub enum WindowInput {
    /// The user asked to close the window.
    CloseRequested,
    /// A key went down.
    KeyPressed(Key),
    /// The window's inner size changed.
    Resized { width: u32, height: u32 },
    /// The window system asked for a redraw.
    RedrawRequested,
    /// Any other event.
    Other,
}

/// What the viewer does in answer to a window event.
#[derive(Clone, Copy, Debug, PartialEq, Eq, Structural)]
pub enum WindowResponse {
    /// Nothing.
    Ignore,
    /// Leave the event loop.
    Exit,
    /// Ask for a destination and save the image there as a PNG.
    SavePng,
    /// Reconfigure the surface for the new size and ask for a redraw.
    ResizeAndRedraw { width: u32, height: u32 },
    /// Draw the image into the window.
    Render,
}

/// The viewer's answer to a window event. Before the viewer has set up its
/// rendering state (`has_state` false) every event is ignored.
pub fn respond_to_window_event(has_state: bool, event: WindowInput) -> (response: WindowResponse)
    ensures
        !has_state ==> response == WindowResponse::Ignore,
        has_state ==> response == match event {
            WindowInput::CloseRequested => WindowResponse::Exit,
            WindowInput::KeyPressed(Key::Escape) => WindowResponse::Exit,
            WindowInput::KeyPressed(Key::S) => WindowResponse::SavePng,
            WindowInput::KeyPressed(Key::Other) => WindowResponse::Ignore,
            WindowInput::Resized { width, height } => WindowResponse::ResizeAndRedraw {
                width,
                height,
            },
            WindowInput::RedrawRequested => WindowResponse::Render,
            WindowInput::Other => WindowResponse::Ignore,
        },
{
    if !has_state {
        return WindowResponse::Ignore;
    }
    match event {
        WindowInput::CloseRequested => WindowResponse::Exit,
        WindowInput::KeyPressed(key) => match key {
            Key::Escape => WindowResponse::Exit,
            Key::S => WindowResponse::SavePng,
            Key::Other => WindowResponse::Ignore,
        },
        WindowInput::Resized { width, height } => WindowResponse::ResizeAndRedraw { width, height },
        WindowInput::RedrawRequested => WindowResponse::Render,
        WindowInput::Other => WindowResponse::Ignore,
    }
}

/// The size a window surface is configured with.
#[derive(Clone, Copy, Debug, PartialEq, Eq, Structural)]
pub struct SurfaceSize {
    pub width: u32,
    pub height: u32,
}

/// Neither side of the surface is zero.
pub open spec fn surface_size_nonzero(s: SurfaceSize) -> bool {
    s.width >= 1 && s.height >= 1
}

/// The size after a resize request to `width` by `height`: a request with a
/// zero side is ignored.
pub open spec fn resize_outcome(s: SurfaceSize, width: u32, height: u32) -> SurfaceSize {
    if width == 0 || height == 0 {
        s
    } else {
        SurfaceSize { width, height }
    }
}

impl SurfaceSize {
    /// The first configuration for a window of the given inner size: each side
    /// at least 1.
    pub fn for_window(width: u32, height: u32) -> (s: SurfaceSize)
        ensures
            s.width == (if width == 0 { 1 } else { width }),
            s.height == (if height == 0 { 1 } else { height }),
            surface_size_nonzero(s),
    {
        SurfaceSize {
            width: if width == 0 { 1 } else { width },
            height: if height == 0 { 1 } else { height },
        }
    }

    /// Take a new window size. A size with a zero side is ignored; the result
    /// tells whether the surface must be configured again.
    pub fn resize(&mut self, width: u32, height: u32) -> (reconfigure: bool)
        ensures
            reconfigure == (width != 0 && height != 0),
            *final(self) == resize_outcome(*old(self), width, height),
            width != 0 && height != 0 ==> *final(self) == (SurfaceSize { width, height }),
            width == 0 || height == 0 ==> *final(self) == *old(self),
    {
        if width == 0 || height == 0 {
            return false;
        }
        self.width = width;
        self.height = height;
        true
    }
}

/// A resize request with no zero side sets the size to exactly the requested
/// one, whatever the size was before (larger, smaller or equal); a request
/// with a zero side leaves the size as it was.
pub proof fn lemma_resize_takes_request(s: SurfaceSize, width: u32, height: u32)
    ensures
        width != 0 && height != 0 ==> resize_outcome(s, width, height) == (SurfaceSize {
            width,
            height,
        }),
        width == 0 || height == 0 ==> resize_outcome(s, width, height) == s,
{
}

/// A surface never gets a zero side: a size that has none keeps having none
/// through any resize request.
pub proof fn lemma_resize_keeps_nonzero(s: SurfaceSize, width: u32, height: u32)
    requires
        surface_size_nonzero(s),
    ensures
        surface_size_nonzero(resize_outcome(s, width, height)),
{
}

/// The surface format the viewer picks among those the surface supports,
/// given whether each is an sRGB format: the first one that is not, or else
/// the first one.
pub fn preferred_format_index(is_srgb: &[bool]) -> (index: usize)
    requires
        is_srgb@.len() > 0,
    ensures
        index < is_srgb@.len(),
        forall|j: int| 0 <= j < index ==> is_srgb@[j],
        !is_srgb@[index as int] || (index == 0 && forall|j: int|
            0 <= j < is_srgb@.len() ==> is_srgb@[j]),
{
    let mut i: usize = 0;
    while i < is_srgb.len()
        invariant
            0 <= i <= is_srgb@.len(),
            forall|j: int| 0 <= j < i ==> is_srgb@[j],
        decreases is_srgb@.len() - i,
    {
        if !is_srgb[i] {
            return i;
        }
        i = i + 1;
    }
    0
}

/// What `get_current_texture` told about the next frame of the surface.
#[derive(Clone, Copy, Debug, PartialEq, Eq, Structural)]
pub enum SurfaceStatus {
    Success,
    Suboptimal,
    Timeout,
    Occluded,
    Outdated,
    Lost,
    Validation,
}

/// What the viewer does with a frame.
#[derive(Clone, Copy, Debug, PartialEq, Eq, Structural)]
pub enum FrameAction {
    /// Draw the image into the acquired frame and present it.
    Draw,
    /// Configure the surface again for the window's size and skip the frame.
    Reconfigure,
    /// Skip the frame.
    Skip,
}

/// The action for a frame: a frame that was acquired (even a suboptimal one)
/// is drawn; an outdated or lost surface is configured again; on a timeout,
/// an occluded window or a validation error the frame is skipped.
pub fn frame_action(status: SurfaceStatus) -> (action: FrameAction)
    ensures
        action == FrameAction::Draw <==> (status == SurfaceStatus::Success || status
            == SurfaceStatus::Suboptimal),
        action == FrameAction::Reconfigure <==> (status == SurfaceStatus::Outdated || status
            == SurfaceStatus::Lost),
        action == FrameAction::Skip <==> (status == SurfaceStatus::Timeout || status
            == SurfaceStatus::Occluded || status == SurfaceStatus::Validation),
{
    match status {
        SurfaceStatus::Success | SurfaceStatus::Suboptimal => FrameAction::Draw,
        SurfaceStatus::Outdated | SurfaceStatus::Lost => FrameAction::Reconfigure,
        _ => FrameAction::Skip,
    }
}

/// The numbers of workgroups, along x and along y, that a compute pass with
/// square workgroups of `workgroup_size` threads a side dispatches to cover a
/// `width` by `height` image.
pub fn workgroups_for(width: u32, height: u32, workgroup_size: u32) -> (groups: (u32, u32))
    requires
        workgroup_size > 0,
    ensures
        groups.0 == ceil_div(width as int, workgroup_size as int),
        groups.1 == ceil_div(height as int, workgroup_size as int),
{
    (div_ceil_u32(width, workgroup_size), div_ceil_u32(height, workgroup_size))
}

/// The workgroups of `workgroups_for` cover each side, and one fewer would
/// not: `n` groups of `size` reach past `extent`, `n - 1` do not.
pub proof fn lemma_workgroups_cover(extent: u32, size: u32)
    requires
        size > 0,
    ensures
        ceil_div(extent as int, size as int) * size >= extent,
        (ceil_div(extent as int, size as int) - 1) * size < extent,
{
    let n = ceil_div(extent as int, size as int);
    let r = (extent + size - 1) % (size as int);
    assert(n * size + r == extent + size - 1 && 0 <= r < size) by (nonlinear_arith)
        requires
            size > 0,
            n == (extent + size - 1) / (size as int),
            r == (extent + size - 1) % (size as int),
    ;
    assert((n - 1) * size == n * size - size) by (nonlinear_arith);
}

} // verus!
