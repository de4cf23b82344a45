//! The GPU collaborators a surface can be backed by: a recording context
//! with its capability limits, backend texture and render-target
//! descriptions, and the characterization used to produce compatible
//! surfaces for parallel recording.

use vstd::prelude::*;

use crate::geometry::ISize;
use crate::image_info::{ColorSpace, ColorType, ImageInfo, SurfaceProps};

verus! {

/// The graphics context a GPU-backed surface records into. Only its
/// capability queries matter to surface construction: the largest texture
/// edge it accepts, the largest per-pixel sample count it supports (every
/// count from one up to it is supported), and whether it can render sRGB.
#[derive(Clone, Copy, Debug, PartialEq, Eq, Structural)]
pub struct RecordingContext {
    pub max_texture_size: i32,
    pub max_sample_count: u32,
    pub supports_srgb: bool,
}

impl RecordingContext {
    pub fn new(max_texture_size: i32, max_sample_count: u32, supports_srgb: bool) -> (r:
        RecordingContext)
        requires
            max_texture_size >= 1,
            max_sample_count >= 1,
        ensures
            r == (RecordingContext { max_texture_size, max_sample_count, supports_srgb }),
    {
        RecordingContext { max_texture_size, max_sample_count, supports_srgb }
    }

    pub open spec fn wf(self) -> bool {
        self.max_texture_size >= 1 && self.max_sample_count >= 1
    }

    /// The context accepts regions of this shape and color configuration.
    pub open spec fn spec_supports_info(self, info: ImageInfo) -> bool {
        &&& info.spec_is_valid()
        &&& info.width <= self.max_texture_size
        &&& info.height <= self.max_texture_size
        &&& (info.color_space == ColorSpace::Srgb || info.color_space == ColorSpace::SrgbLinear)
            ==> self.supports_srgb
    }

    pub fn supports_info(&self, info: &ImageInfo) -> (r: bool)
        ensures
            r == self.spec_supports_info(*info),
    {
        let srgb_ok: bool = if info.color_space == ColorSpace::Srgb || info.color_space
            == ColorSpace::SrgbLinear {
            self.supports_srgb
        } else {
            true
        };
        info.is_valid() && info.width <= self.max_texture_size && info.height
            <= self.max_texture_size && srgb_ok
    }

    /// A requested per-pixel sample count, rounded into the supported range:
    /// zero (no multisampling) becomes one, and a request past the maximum is
    /// rounded down to it.
    pub open spec fn spec_adjust_sample_count(self, requested: u32) -> u32 {
        if requested == 0 {
            1u32
        } else if requested > self.max_sample_count {
            self.max_sample_count
        } else {
            requested
        }
    }

    pub fn adjust_sample_count(&self, requested: u32) -> (r: u32)
        ensures
            r == self.spec_adjust_sample_count(requested),
    {
        if requested == 0 {
            1
        } else if requested > self.max_sample_count {
            self.max_sample_count
        } else {
            requested
        }
    }
}

/// Which corner of a GPU target the pixel origin is pinned to.
#[derive(Clone, Copy, Debug, PartialEq, Eq, Structural)]
pub enum SurfaceOrigin {
    TopLeft,
    BottomLeft,
}

/// Whether a context tracks the new surface's pixel allocation.
#[derive(Clone, Copy, Debug, PartialEq, Eq, Structural)]
pub enum Budgeted {
    No,
    Yes,
}

/// A texture residing on the GPU, described by what surface construction
/// reads of it. The identity tag distinguishes one backing object from
/// another; the caller guarantees the object outlives any surface wrapping
/// it.
#[derive(Clone, Copy, Debug, PartialEq, Eq, Structural)]
pub struct BackendTexture {
    pub width: i32,
    pub height: i32,
    pub color_type: ColorType,
    pub color_space: ColorSpace,
    pub sample_count: u32,
    pub id: u64,
}

impl BackendTexture {
    pub fn size(&self) -> (r: ISize)
        ensures
            r.width == self.width,
            r.height == self.height,
    {
        ISize { width: self.width, height: self.height }
    }
}

/// A GPU render target, described the same way.
#[derive(Clone, Copy, Debug, PartialEq, Eq, Structural)]
pub struct BackendRenderTarget {
    pub width: i32,
    pub height: i32,
    pub color_type: ColorType,
    pub color_space: ColorSpace,
    pub sample_count: u32,
    pub id: u64,
}

/// Which backend object a caller asks a surface for, and what the surface
/// flushes before handing it out.
#[derive(Clone, Copy, Debug, PartialEq, Eq, Structural)]
pub enum BackendHandleAccess {
    FlushRead,
    FlushWrite,
    DiscardWrite,
}

/// What the caller will do with the backend object after a flush.
#[derive(Clone, Copy, Debug, PartialEq, Eq, Structural)]
pub enum BackendSurfaceAccess {
    NoAccess,
    Present,
}

/// Whether a flush handed semaphores to the GPU. This model passes none in,
/// so none are ever submitted; the flush itself still happens.
#[derive(Clone, Copy, Debug, PartialEq, Eq, Structural)]
pub enum SemaphoresSubmitted {
    No,
    Yes,
}

/// Extra flush options. None of them reach the model's state, so the
/// descriptor carries nothing.
#[derive(Clone, Copy, Debug, PartialEq, Eq, Structural)]
pub struct FlushInfo {
    pub submit_on_flush: bool,
}

impl FlushInfo {
    pub fn default_info() -> (r: FlushInfo)
        ensures
            !r.submit_on_flush,
    {
        FlushInfo { submit_on_flush: false }
    }
}

/// A requested texture state transition after a flush; an engine-side hint
/// with no observable effect on the model.
#[derive(Clone, Copy, Debug, PartialEq, Eq, Structural)]
pub struct MutableTextureState {
    pub queue_family_ignored: bool,
}

/// A serializable description of a GPU surface's configuration. Two surfaces
/// drawn against equal characterizations can replay one deferred command
/// stream; compatibility is the equality of every field here.
#[derive(Clone, Copy, Debug, PartialEq, Eq, Structural)]
pub struct SurfaceCharacterization {
    pub image_info: ImageInfo,
    pub sample_count: u32,
    pub origin: SurfaceOrigin,
    pub props: SurfaceProps,
}

/// A recorded stream of drawing commands, replayable onto any surface
/// compatible with the characterization it was recorded against.
#[derive(Clone, Copy, Debug, PartialEq, Eq, Structural)]
pub struct DeferredDisplayList {
    pub characterization: SurfaceCharacterization,
}

} // verus!
