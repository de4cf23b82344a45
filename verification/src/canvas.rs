//! The drawing context a surface owns: the command-accepting interface that
//! holds the surface's mutable drawing state — pixel contents, the content
//! version, and the GPU command bookkeeping.
//!
//! A canvas accepts two kinds of operations. An image blit transfers pixels
//! it can re-encode without color math, and its effect on the contents is
//! specified exactly. Every other command (filtered drawing, text rendering)
//! is recorded as a content change whose raster output belongs to the
//! rendering engine and is not reproduced here. Both strictly advance the
//! content version.

use vstd::prelude::*;

use crate::geometry::IPoint;
use crate::gpu::{RecordingContext, SurfaceOrigin};
use crate::image_info::ImageInfo;
use crate::pixels::{copy_pixels, spec_copy};

verus! {

/// What a drawing destination is backed by.
#[derive(Clone, Copy, Debug, PartialEq, Eq, Structural)]
pub enum Backing {
    /// A CPU pixel buffer.
    Raster,
    /// A caller-provided GPU texture, wrapped, not owned.
    GpuTexture { context: RecordingContext, texture_id: u64, sample_count: u32, origin: SurfaceOrigin },
    /// A GPU render target.
    GpuRenderTarget { context: RecordingContext, target_id: u64, sample_count: u32, origin: SurfaceOrigin },
    /// No backing pixels: drawing is a no-op and snapshots yield nothing.
    Null,
}

impl Backing {
    pub open spec fn spec_is_gpu(self) -> bool {
        self is GpuTexture || self is GpuRenderTarget
    }

    pub open spec fn spec_sample_count(self) -> u32 {
        match self {
            Backing::GpuTexture { sample_count, .. } => sample_count,
            Backing::GpuRenderTarget { sample_count, .. } => sample_count,
            _ => 1u32,
        }
    }

    pub open spec fn spec_origin(self) -> SurfaceOrigin {
        match self {
            Backing::GpuTexture { origin, .. } => origin,
            Backing::GpuRenderTarget { origin, .. } => origin,
            _ => SurfaceOrigin::TopLeft,
        }
    }

    pub fn is_gpu(&self) -> (r: bool)
        ensures
            r == self.spec_is_gpu(),
    {
        match self {
            Backing::GpuTexture { .. } => true,
            Backing::GpuRenderTarget { .. } => true,
            _ => false,
        }
    }

    pub fn is_null(&self) -> (r: bool)
        ensures
            r == (*self is Null),
    {
        match self {
            Backing::Null => true,
            _ => false,
        }
    }
}

/// Color filter, blend and alpha options a draw may carry: opaque policies
/// consumed by the rendering engine, not interpreted by this layer. A draw
/// carrying one is recorded as a content change whose raster output is the
/// engine's.
#[derive(Clone, Copy, Debug, PartialEq, Eq, Structural)]
pub struct Paint {
    pub uses_color_filter: bool,
}

impl Paint {
    pub fn new() -> (r: Paint)
        ensures
            !r.uses_color_filter,
    {
        Paint { uses_color_filter: false }
    }
}

/// How pixels are sampled when a surface is drawn elsewhere; an opaque
/// policy consumed by the engine. The model's blit is unscaled, so the
/// choice does not change its result.
#[derive(Clone, Copy, Debug, PartialEq, Eq, Structural)]
pub struct SamplingOptions {
    pub use_cubic: bool,
}

impl SamplingOptions {
    pub fn default_options() -> (r: SamplingOptions)
        ensures
            !r.use_cubic,
    {
        SamplingOptions { use_cubic: false }
    }
}

/// The drawing context. One canvas belongs to exactly one surface, which
/// creates it and hands out the same instance on every request.
#[derive(Debug)]
pub struct Canvas {
    pub info: ImageInfo,
    pub row_bytes: usize,
    pub backing: Backing,
    pub pixels: Vec<u8>,
    pub generation: u64,
    pub pending_commands: bool,
    pub unresolved_msaa: bool,
}

impl Canvas {
    /// The internal invariant every constructor establishes and every
    /// operation preserves: a positive shape, a sufficient stride, backing
    /// pixels that cover the region (none for a null sink), a version that
    /// started at one, and GPU bookkeeping only on GPU backings.
    pub open spec fn wf(self) -> bool {
        &&& self.info.spec_is_valid()
        &&& self.generation >= 1
        &&& match self.backing {
            Backing::Null => {
                &&& self.pixels@.len() == 0
                &&& self.row_bytes == 0
                &&& !self.pending_commands
                &&& !self.unresolved_msaa
            },
            Backing::Raster => {
                &&& self.info.spec_valid_pixels(self.row_bytes as int, self.pixels@)
                &&& !self.pending_commands
                &&& !self.unresolved_msaa
            },
            Backing::GpuTexture { context, sample_count, .. } => {
                &&& self.info.spec_valid_pixels(self.row_bytes as int, self.pixels@)
                &&& context.wf()
                &&& 1 <= sample_count <= context.max_sample_count
                &&& self.unresolved_msaa ==> sample_count > 1
            },
            Backing::GpuRenderTarget { context, sample_count, .. } => {
                &&& self.info.spec_valid_pixels(self.row_bytes as int, self.pixels@)
                &&& context.wf()
                &&& 1 <= sample_count <= context.max_sample_count
                &&& self.unresolved_msaa ==> sample_count > 1
            },
        }
    }

    pub open spec fn spec_info(self) -> ImageInfo {
        self.info
    }

    pub open spec fn spec_row_bytes(self) -> int {
        self.row_bytes as int
    }

    pub open spec fn spec_backing(self) -> Backing {
        self.backing
    }

    pub open spec fn spec_pixels(self) -> Seq<u8> {
        self.pixels@
    }

    pub open spec fn spec_generation(self) -> u64 {
        self.generation
    }

    pub open spec fn spec_pending_commands(self) -> bool {
        self.pending_commands
    }

    pub open spec fn spec_unresolved_msaa(self) -> bool {
        self.unresolved_msaa
    }

    /// Shape, format, stride and backing: everything about a canvas but its
    /// mutable drawing state.
    pub open spec fn spec_same_config(a: Canvas, b: Canvas) -> bool {
        &&& a.spec_info() == b.spec_info()
        &&& a.spec_row_bytes() == b.spec_row_bytes()
        &&& a.spec_backing() == b.spec_backing()
    }

    pub fn image_info(&self) -> (r: ImageInfo)
        ensures
            r == self.spec_info(),
    {
        self.info
    }

    pub fn width(&self) -> (r: i32)
        ensures
            r == self.spec_info().width,
    {
        self.info.width
    }

    pub fn height(&self) -> (r: i32)
        ensures
            r == self.spec_info().height,
    {
        self.info.height
    }

    pub fn generation_id(&self) -> (r: u64)
        ensures
            r == self.spec_generation(),
    {
        self.generation
    }

    /// The blit re-encodes and lands: the destination has pixels, the source
    /// region is well formed, and the formats convert without color math.
    pub open spec fn spec_blit_applies(
        self,
        src_info: ImageInfo,
        src_row_bytes: int,
        src: Seq<u8>,
    ) -> bool {
        &&& !(self.spec_backing() is Null)
        &&& src_info.spec_is_valid()
        &&& src_info.spec_valid_pixels(src_row_bytes, src)
        &&& ImageInfo::spec_can_convert(src_info, self.spec_info())
    }

    /// Draws a source region into this canvas, unscaled, with its top-left
    /// corner at `offset`. When the blit applies, the contents become
    /// exactly the clipped, re-encoded copy; otherwise the contents stay as
    /// they were (a null sink swallows the command). Either way the drawing
    /// operation strictly advances the content version.
    pub fn draw_image(
        &mut self,
        src_info: &ImageInfo,
        src_pixels: &Vec<u8>,
        src_row_bytes: usize,
        offset: IPoint,
    )
        requires
            old(self).wf(),
            old(self).spec_generation() < u64::MAX,
        ensures
            final(self).wf(),
            Canvas::spec_same_config(*final(self), *old(self)),
            final(self).spec_generation() == old(self).spec_generation() + 1,
            old(self).spec_blit_applies(*src_info, src_row_bytes as int, src_pixels@)
                ==> final(self).spec_pixels() == spec_copy(
                old(self).spec_pixels(),
                old(self).spec_info(),
                old(self).spec_row_bytes(),
                src_pixels@,
                *src_info,
                src_row_bytes as int,
                offset.x as int,
                offset.y as int,
            ),
            !old(self).spec_blit_applies(*src_info, src_row_bytes as int, src_pixels@)
                ==> final(self).spec_pixels() == old(self).spec_pixels(),
            final(self).spec_pending_commands() == (old(self).spec_pending_commands() || old(
                self,
            ).spec_backing().spec_is_gpu()),
            final(self).spec_unresolved_msaa() == (old(self).spec_unresolved_msaa() || (old(
                self,
            ).spec_backing().spec_is_gpu() && old(self).spec_backing().spec_sample_count() > 1)),
    {
        let applies: bool = !self.backing.is_null() && src_info.is_valid()
            && src_info.valid_pixels(src_row_bytes, src_pixels) && ImageInfo::can_convert(
            src_info,
            &self.info,
        );
        if applies {
            copy_pixels(
                &mut self.pixels,
                &self.info,
                self.row_bytes,
                src_pixels,
                src_info,
                src_row_bytes,
                offset.x as i64,
                offset.y as i64,
            );
        }
        self.generation = self.generation + 1;
        if self.backing.is_gpu() {
            self.pending_commands = true;
            if self.backing.sample_count_above_one() {
                self.unresolved_msaa = true;
            }
        }
    }

    /// Records drawing commands whose raster output the model does not
    /// reproduce (filtered or sampled drawing, text rendering): the contents
    /// stay as last specified while the content version and the GPU
    /// bookkeeping advance as for any drawing operation.
    pub fn record_draw(&mut self)
        requires
            old(self).wf(),
            old(self).spec_generation() < u64::MAX,
        ensures
            final(self).wf(),
            Canvas::spec_same_config(*final(self), *old(self)),
            final(self).spec_pixels() == old(self).spec_pixels(),
            final(self).spec_generation() == old(self).spec_generation() + 1,
            final(self).spec_pending_commands() == (old(self).spec_pending_commands() || old(
                self,
            ).spec_backing().spec_is_gpu()),
            final(self).spec_unresolved_msaa() == (old(self).spec_unresolved_msaa() || (old(
                self,
            ).spec_backing().spec_is_gpu() && old(self).spec_backing().spec_sample_count() > 1)),
    {
        self.generation = self.generation + 1;
        if self.backing.is_gpu() {
            self.pending_commands = true;
            if self.backing.sample_count_above_one() {
                self.unresolved_msaa = true;
            }
        }
    }
}

impl Backing {
    fn sample_count_above_one(&self) -> (r: bool)
        ensures
            r == (self.spec_is_gpu() && self.spec_sample_count() > 1),
    {
        match self {
            Backing::GpuTexture { sample_count, .. } => *sample_count > 1,
            Backing::GpuRenderTarget { sample_count, .. } => *sample_count > 1,
            _ => false,
        }
    }
}

} // verus!
