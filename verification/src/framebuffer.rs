use crate::handles::FramebufferHandle;
use crate::mode::Mode;
use vstd::prelude::*;

verus! {

/// A pixel format, as its four-character code.
#[derive(Clone, Copy, Debug, PartialEq, Eq, Structural)]
pub struct PixelFormat(pub u32);

/// A memory layout of a surface, as its modifier code.
#[derive(Clone, Copy, Debug, PartialEq, Eq, Structural)]
pub struct LayoutModifier(pub u64);

/// What to ask of the buffer allocator, and of the display device when the
/// surface is registered with it, for one scanout surface.
#[derive(Clone, Copy, Debug, PartialEq, Eq)]
pub struct SurfaceRequest {
    pub width: u32,
    pub height: u32,
    pub format: PixelFormat,
    /// The surface will be rendered to.
    pub rendering: bool,
    /// The surface will be scanned out.
    pub scanout: bool,
    /// The layout of each of the four memory planes of the framebuffer.
    pub modifiers: [Option<LayoutModifier>; 4],
}

/// One scanout surface that is registered with the display device. The
/// registration must be undone before the surface's memory is freed.
#[derive(Debug, PartialEq, Eq)]
pub struct FrameBufferObject {
    framebuffer: FramebufferHandle,
    width: u32,
    height: u32,
    format: PixelFormat,
    modifier: LayoutModifier,
}

impl FrameBufferObject {
    /// The identifier under which the surface is registered.
    pub closed spec fn spec_framebuffer(&self) -> FramebufferHandle {
        self.framebuffer
    }

    /// Width and height of the surface in pixels.
    pub closed spec fn spec_size(&self) -> (u32, u32) {
        (self.width, self.height)
    }

    /// The pixel format of the surface.
    pub closed spec fn spec_format(&self) -> PixelFormat {
        self.format
    }

    /// The layout of the surface's first memory plane.
    pub closed spec fn spec_modifier(&self) -> LayoutModifier {
        self.modifier
    }

    /// The request for a surface that `mode` can be scanned out from.
    pub open spec fn spec_surface_request(
        mode: Mode,
        format: PixelFormat,
        modifier: LayoutModifier,
    ) -> SurfaceRequest {
        SurfaceRequest {
            width: mode.width as u32,
            height: mode.height as u32,
            format,
            rendering: true,
            scanout: true,
            modifiers: [Some(modifier), None, None, None],
        }
    }

    /// Says what has to be allocated and registered for one frame of `mode`:
    /// a surface of the mode's size, fit for rendering and for scanout, whose
    /// first memory plane has the layout `modifier` while the other three
    /// are left unset.
    pub fn surface_request(mode: &Mode, format: PixelFormat, modifier: LayoutModifier) -> (request:
        SurfaceRequest)
        ensures
            request == Self::spec_surface_request(*mode, format, modifier),
    {
        SurfaceRequest {
            width: mode.width as u32,
            height: mode.height as u32,
            format,
            rendering: true,
            scanout: true,
            modifiers: [Some(modifier), None, None, None],
        }
    }

    /// Records a surface that was allocated for `mode` and registered under
    /// `framebuffer`.
    pub fn new(
        mode: &Mode,
        format: PixelFormat,
        modifier: LayoutModifier,
        framebuffer: FramebufferHandle,
    ) -> (fbo: FrameBufferObject)
        ensures
            fbo.spec_framebuffer() == framebuffer,
            fbo.spec_size() == (mode.width as u32, mode.height as u32),
            fbo.spec_format() == format,
            fbo.spec_modifier() == modifier,
    {
        FrameBufferObject {
            framebuffer,
            width: mode.width as u32,
            height: mode.height as u32,
            format,
            modifier,
        }
    }

    /// The identifier under which the surface is registered.
    pub fn framebuffer(&self) -> (handle: FramebufferHandle)
        ensures
            handle == self.spec_framebuffer(),
    {
        self.framebuffer
    }

    /// Width and height of the surface in pixels.
    pub fn size(&self) -> (size: (u32, u32))
        ensures
            size == self.spec_size(),
    {
        (self.width, self.height)
    }

    /// Gives the surface up. The identifier that comes back is the
    /// registration to undo, before the surface's memory is freed.
    pub fn release(self) -> (handle: FramebufferHandle)
        ensures
            handle == self.spec_framebuffer(),
    {
        self.framebuffer
    }
}

} // verus!
