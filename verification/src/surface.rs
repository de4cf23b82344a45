//! The drawing surface: an owned or borrowed drawing destination plus its
//! associated drawing context, a content-version counter, and the pixel
//! import/export operations, clipped and validated before any byte moves.
//!
//! Every construction path either yields a valid surface or an explicit
//! "no surface" — never a partially valid object. A surface always has
//! positive dimensions.

use vstd::prelude::*;

use crate::canvas::{Backing, Canvas, Paint, SamplingOptions};
use crate::geometry::{IPoint, IRect, ISize};
use crate::gpu::{
    BackendHandleAccess, BackendRenderTarget, BackendSurfaceAccess, BackendTexture, Budgeted,
    DeferredDisplayList, FlushInfo, MutableTextureState, RecordingContext, SemaphoresSubmitted,
    SurfaceCharacterization, SurfaceOrigin,
};
use crate::image::{Bitmap, Image, Pixmap};
use crate::image_info::{
    AlphaType, ColorSpace, ColorType, ContentChangeMode, ImageInfo, SurfaceProps,
};
use crate::pixels::{
    copy_pixels, lemma_mul_beyond, lemma_mul_within, spec_copy, spec_copy_region_nonempty,
    zeroed_buffer, duplicate_buffer,
};

verus! {

/// A drawing destination and the one drawing context it owns.
#[derive(Debug)]
pub struct Surface {
    canvas: Canvas,
    props: SurfaceProps,
}

/// The region's byte size under this stride, or nothing when it exceeds the
/// machine word.
fn checked_byte_size(info: &ImageInfo, row_bytes: usize) -> (r: Option<usize>)
    requires
        info.spec_is_valid(),
        info.spec_min_row_bytes() <= row_bytes,
    ensures
        r is Some <==> info.spec_byte_size(row_bytes as int) <= usize::MAX,
        r is Some ==> r->0 == info.spec_byte_size(row_bytes as int),
{
    let min_rb: usize = info.min_row_bytes();
    let h1: usize = (info.height - 1) as usize;
    if h1 > (usize::MAX - min_rb) / row_bytes {
        proof {
            lemma_mul_beyond(h1 as int, row_bytes as int, usize::MAX - min_rb);
        }
        None
    } else {
        proof {
            lemma_mul_within(h1 as int, row_bytes as int, usize::MAX - min_rb);
        }
        Some(h1 * row_bytes + min_rb)
    }
}

/// Whether a copy of the source region, placed at `(off_x, off_y)` of the
/// destination region, covers any destination pixel.
fn region_nonempty(dst_info: &ImageInfo, src_info: &ImageInfo, off_x: i64, off_y: i64) -> (r: bool)
    requires
        -0x1_0000_0000 <= off_x <= 0x1_0000_0000,
        -0x1_0000_0000 <= off_y <= 0x1_0000_0000,
    ensures
        r == spec_copy_region_nonempty(*dst_info, *src_info, off_x as int, off_y as int),
{
    let x0: i64 = if off_x >= 0 {
        off_x
    } else {
        0
    };
    let x1: i64 = if (dst_info.width as i64) <= off_x + (src_info.width as i64) {
        dst_info.width as i64
    } else {
        off_x + (src_info.width as i64)
    };
    let y0: i64 = if off_y >= 0 {
        off_y
    } else {
        0
    };
    let y1: i64 = if (dst_info.height as i64) <= off_y + (src_info.height as i64) {
        dst_info.height as i64
    } else {
        off_y + (src_info.height as i64)
    };
    x0 < x1 && y0 < y1
}

impl Surface {
    /// The invariant of the owned drawing state.
    pub open spec fn wf(self) -> bool {
        self.spec_canvas().wf()
    }

    pub closed spec fn spec_canvas(self) -> Canvas {
        self.canvas
    }

    pub closed spec fn spec_props(self) -> SurfaceProps {
        self.props
    }

    pub open spec fn spec_info(self) -> ImageInfo {
        self.spec_canvas().spec_info()
    }

    pub open spec fn spec_row_bytes(self) -> int {
        self.spec_canvas().spec_row_bytes()
    }

    pub open spec fn spec_backing(self) -> Backing {
        self.spec_canvas().spec_backing()
    }

    pub open spec fn spec_pixels(self) -> Seq<u8> {
        self.spec_canvas().spec_pixels()
    }

    pub open spec fn spec_generation(self) -> u64 {
        self.spec_canvas().spec_generation()
    }

    /// Shape, format, stride, backing and style: everything but the mutable
    /// drawing state.
    pub open spec fn spec_same_config(a: Surface, b: Surface) -> bool {
        &&& Canvas::spec_same_config(a.spec_canvas(), b.spec_canvas())
        &&& a.spec_props() == b.spec_props()
    }

    /// The one place a surface comes to exist.
    fn from_parts(
        info: ImageInfo,
        row_bytes: usize,
        backing: Backing,
        pixels: Vec<u8>,
        props: SurfaceProps,
    ) -> (r: Surface)
        requires
            info.spec_is_valid(),
            match backing {
                Backing::Null => pixels@.len() == 0 && row_bytes == 0,
                Backing::Raster => info.spec_min_row_bytes() <= row_bytes
                    && info.spec_valid_pixels(row_bytes as int, pixels@),
                Backing::GpuTexture { context, sample_count, .. } => {
                    &&& info.spec_min_row_bytes() <= row_bytes
                    &&& info.spec_valid_pixels(row_bytes as int, pixels@)
                    &&& context.wf()
                    &&& 1 <= sample_count <= context.max_sample_count
                },
                Backing::GpuRenderTarget { context, sample_count, .. } => {
                    &&& info.spec_min_row_bytes() <= row_bytes
                    &&& info.spec_valid_pixels(row_bytes as int, pixels@)
                    &&& context.wf()
                    &&& 1 <= sample_count <= context.max_sample_count
                },
            },
        ensures
            r.wf(),
            r.spec_info() == info,
            r.spec_row_bytes() == row_bytes,
            r.spec_backing() == backing,
            r.spec_pixels() == pixels@,
            r.spec_generation() == 1,
            r.spec_props() == props,
            !r.spec_canvas().spec_pending_commands(),
            !r.spec_canvas().spec_unresolved_msaa(),
    {
        Surface {
            canvas: Canvas {
                info,
                row_bytes,
                backing,
                pixels,
                generation: 1,
                pending_commands: false,
                unresolved_msaa: false,
            },
            props,
        }
    }

    /// Allocates a raster surface directly over the caller's pixel buffer,
    /// which the surface holds for its whole lifetime; the buffer's bytes
    /// are taken as they are, not cleared. The stride defaults to the
    /// smallest one the format implies. Yields no surface when the shape is
    /// degenerate, the stride is undersized, or the buffer is shorter than
    /// the region's computed byte size.
    pub fn new_raster_direct(
        image_info: &ImageInfo,
        pixels: Vec<u8>,
        row_bytes: Option<usize>,
        surface_props: Option<&SurfaceProps>,
    ) -> (r: Option<Surface>)
        ensures
            ({
                let rb = if row_bytes is Some {
                    row_bytes->0 as int
                } else {
                    image_info.spec_min_row_bytes()
                };
                &&& (r is Some <==> image_info.spec_is_valid() && image_info.spec_min_row_bytes()
                    <= rb && image_info.spec_valid_pixels(rb, pixels@))
                &&& r is Some ==> {
                    &&& r->0.wf()
                    &&& r->0.spec_info() == *image_info
                    &&& r->0.spec_row_bytes() == rb
                    &&& r->0.spec_backing() == Backing::Raster
                    &&& r->0.spec_pixels() == pixels@
                    &&& r->0.spec_generation() == 1
                    &&& r->0.spec_props() == props_or_default(surface_props)
                }
            }),
    {
        if !image_info.is_valid() {
            return None;
        }
        // Witnesses that the buffer's length fits the machine word.
        let pixels_len: usize = pixels.len();
        let bpp: usize = image_info.bytes_per_pixel();
        let wu: usize = image_info.width as usize;
        if wu > usize::MAX / bpp {
            // The minimal stride itself exceeds the machine word, so no real
            // buffer can satisfy either condition.
            proof {
                lemma_mul_beyond(wu as int, bpp as int, usize::MAX as int);
                let rb = if row_bytes is Some {
                    row_bytes->0 as int
                } else {
                    image_info.spec_min_row_bytes()
                };
                if row_bytes is None {
                    assert((image_info.height - 1) * rb >= 0) by (nonlinear_arith)
                        requires
                            image_info.height >= 1,
                            rb >= 0,
                    ;
                    assert(image_info.spec_byte_size(rb) > usize::MAX >= pixels@.len());
                }
            }
            return None;
        }
        proof {
            lemma_mul_within(wu as int, bpp as int, usize::MAX as int);
        }
        let min_rb: usize = wu * bpp;
        let rb: usize = match row_bytes {
            Some(rb) => rb,
            None => min_rb,
        };
        if !image_info.valid_pixels(rb, &pixels) {
            return None;
        }
        Some(
            Surface::from_parts(
                *image_info,
                rb,
                Backing::Raster,
                pixels,
                props_from(surface_props),
            ),
        )
    }

    /// Allocates a raster surface over fresh, zero-initialised memory of
    /// `height` rows of the given stride (the minimal stride when zero is
    /// passed). Yields no surface when the shape is degenerate, a non-zero
    /// stride is undersized, or the byte size exceeds the machine word.
    pub fn new_raster(
        image_info: &ImageInfo,
        row_bytes: Option<usize>,
        surface_props: Option<&SurfaceProps>,
    ) -> (r: Option<Surface>)
        ensures
            ({
                let requested = if row_bytes is Some {
                    row_bytes->0 as int
                } else {
                    0
                };
                let rb = if requested == 0 {
                    image_info.spec_min_row_bytes()
                } else {
                    requested
                };
                &&& (r is Some <==> image_info.spec_is_valid() && image_info.spec_min_row_bytes()
                    <= rb && image_info.spec_byte_size(rb) <= usize::MAX)
                &&& r is Some ==> {
                    &&& r->0.wf()
                    &&& r->0.spec_info() == *image_info
                    &&& r->0.spec_row_bytes() == rb
                    &&& r->0.spec_backing() == Backing::Raster
                    &&& r->0.spec_pixels() =~= Seq::new(
                        image_info.spec_byte_size(rb) as nat,
                        |i: int| 0u8,
                    )
                    &&& r->0.spec_generation() == 1
                    &&& r->0.spec_props() == props_or_default(surface_props)
                }
            }),
    {
        if !image_info.is_valid() {
            return None;
        }
        let bpp: usize = image_info.bytes_per_pixel();
        let wu: usize = image_info.width as usize;
        let requested: usize = match row_bytes {
            Some(rb) => rb,
            None => 0,
        };
        if wu > usize::MAX / bpp {
            // The minimal stride exceeds the machine word: a usable stride
            // cannot exist, and neither can the allocation.
            proof {
                lemma_mul_beyond(wu as int, bpp as int, usize::MAX as int);
                if requested == 0 {
                    let rb = image_info.spec_min_row_bytes();
                    assert((image_info.height - 1) * rb >= 0) by (nonlinear_arith)
                        requires
                            image_info.height >= 1,
                            rb >= 0,
                    ;
                }
            }
            return None;
        }
        proof {
            lemma_mul_within(wu as int, bpp as int, usize::MAX as int);
        }
        let min_rb: usize = wu * bpp;
        let rb: usize = if requested == 0 {
            min_rb
        } else {
            requested
        };
        if rb < min_rb {
            return None;
        }
        let size: usize = match checked_byte_size(image_info, rb) {
            Some(size) => size,
            None => {
                return None;
            },
        };
        let pixels = zeroed_buffer(size);
        Some(
            Surface::from_parts(
                *image_info,
                rb,
                Backing::Raster,
                pixels,
                props_from(surface_props),
            ),
        )
    }

    /// Allocates a raster surface of `width * height * 4` zeroed bytes in
    /// the fixed premultiplied native 32-bit format. Yields a surface
    /// exactly when both dimensions are positive (and the allocation fits
    /// the machine word).
    pub fn new_raster_n32_premul(size: ISize) -> (r: Option<Surface>)
        ensures
            ({
                let info = ImageInfo {
                    width: size.width,
                    height: size.height,
                    color_type: ColorType::Rgba8888,
                    alpha_type: AlphaType::Premul,
                    color_space: ColorSpace::Unspecified,
                };
                &&& (r is Some <==> size.spec_is_positive() && info.spec_byte_size(
                    info.spec_min_row_bytes(),
                ) <= usize::MAX)
                &&& r is Some ==> {
                    &&& r->0.wf()
                    &&& r->0.spec_info() == info
                    &&& r->0.spec_row_bytes() == info.spec_min_row_bytes()
                    &&& r->0.spec_backing() == Backing::Raster
                    &&& r->0.spec_pixels() =~= Seq::new(
                        info.spec_byte_size(info.spec_min_row_bytes()) as nat,
                        |i: int| 0u8,
                    )
                    &&& r->0.spec_generation() == 1
                }
            }),
    {
        let info = ImageInfo::new_n32_premul(size);
        Surface::new_raster(&info, None, None)
    }

    /// A surface without backing pixels: drawing into it has no effect and
    /// snapshots of it yield no image. Yields a surface exactly when both
    /// dimensions are positive.
    pub fn new_null(size: ISize) -> (r: Option<Surface>)
        ensures
            r is Some <==> size.spec_is_positive(),
            r is Some ==> {
                &&& r->0.wf()
                &&& r->0.spec_info().width == size.width
                &&& r->0.spec_info().height == size.height
                &&& r->0.spec_backing() == Backing::Null
                &&& r->0.spec_generation() == 1
            },
    {
        if !size.is_positive() {
            return None;
        }
        let info = ImageInfo::new_n32_premul(size);
        Some(
            Surface::from_parts(
                info,
                0,
                Backing::Null,
                Vec::new(),
                SurfaceProps::default_props(),
            ),
        )
    }

    /// The format a GPU wrap of this backend object would carry: the
    /// object's shape, the requested color type, the given color space, and
    /// the engine's premultiplied alpha convention.
    pub open spec fn spec_gpu_info(
        width: i32,
        height: i32,
        color_type: ColorType,
        color_space: ColorSpace,
    ) -> ImageInfo {
        ImageInfo { width, height, color_type, alpha_type: AlphaType::Premul, color_space }
    }

    /// Builds a GPU-backed surface over zeroed model contents.
    fn make_gpu(info: ImageInfo, backing: Backing, props: SurfaceProps) -> (r: Option<Surface>)
        requires
            info.spec_is_valid(),
            backing.spec_is_gpu(),
            match backing {
                Backing::GpuTexture { context, sample_count, .. } => context.wf() && 1
                    <= sample_count <= context.max_sample_count,
                Backing::GpuRenderTarget { context, sample_count, .. } => context.wf() && 1
                    <= sample_count <= context.max_sample_count,
                _ => false,
            },
        ensures
            r is Some <==> info.spec_byte_size(info.spec_min_row_bytes()) <= usize::MAX,
            r is Some ==> {
                &&& r->0.wf()
                &&& r->0.spec_info() == info
                &&& r->0.spec_row_bytes() == info.spec_min_row_bytes()
                &&& r->0.spec_backing() == backing
                &&& r->0.spec_pixels() =~= Seq::new(
                    info.spec_byte_size(info.spec_min_row_bytes()) as nat,
                    |i: int| 0u8,
                )
                &&& r->0.spec_generation() == 1
                &&& r->0.spec_props() == props
                &&& !r->0.spec_canvas().spec_pending_commands()
                &&& !r->0.spec_canvas().spec_unresolved_msaa()
            },
    {
        let bpp: usize = info.bytes_per_pixel();
        let wu: usize = info.width as usize;
        if wu > usize::MAX / bpp {
            proof {
                lemma_mul_beyond(wu as int, bpp as int, usize::MAX as int);
                let rb = info.spec_min_row_bytes();
                assert((info.height - 1) * rb >= 0) by (nonlinear_arith)
                    requires
                        info.height >= 1,
                        rb >= 0,
                ;
            }
            return None;
        }
        proof {
            lemma_mul_within(wu as int, bpp as int, usize::MAX as int);
        }
        let min_rb: usize = wu * bpp;
        let size: usize = match checked_byte_size(&info, min_rb) {
            Some(size) => size,
            None => {
                return None;
            },
        };
        let pixels = zeroed_buffer(size);
        Some(Surface::from_parts(info, min_rb, backing, pixels, props))
    }

    /// Wraps an existing GPU texture; the caller keeps the texture valid for
    /// the surface's whole lifetime. Yields a surface exactly when the
    /// texture's configuration is acceptable to the context: positive shape
    /// within its texture-size limit, the requested color type agreeing with
    /// the texture's, and sRGB only where the context supports it. The
    /// model's view of the wrapped contents starts at zero. The sample-count
    /// request is rounded into the supported range.
    pub fn from_backend_texture(
        context: &RecordingContext,
        backend_texture: &BackendTexture,
        origin: SurfaceOrigin,
        sample_cnt: u32,
        color_type: ColorType,
        color_space: ColorSpace,
        surface_props: Option<&SurfaceProps>,
    ) -> (r: Option<Surface>)
        requires
            context.wf(),
        ensures
            ({
                let info = Surface::spec_gpu_info(
                    backend_texture.width,
                    backend_texture.height,
                    color_type,
                    color_space,
                );
                &&& (r is Some <==> context.spec_supports_info(info) && color_type
                    == backend_texture.color_type && info.spec_byte_size(info.spec_min_row_bytes())
                    <= usize::MAX)
                &&& r is Some ==> {
                    &&& r->0.wf()
                    &&& r->0.spec_info() == info
                    &&& r->0.spec_backing() == (Backing::GpuTexture {
                        context: *context,
                        texture_id: backend_texture.id,
                        sample_count: context.spec_adjust_sample_count(sample_cnt),
                        origin,
                    })
                    &&& r->0.spec_generation() == 1
                    &&& r->0.spec_props() == props_or_default(surface_props)
                }
            }),
    {
        let info = ImageInfo {
            width: backend_texture.width,
            height: backend_texture.height,
            color_type,
            alpha_type: AlphaType::Premul,
            color_space,
        };
        if !context.supports_info(&info) || color_type != backend_texture.color_type {
            return None;
        }
        let sample_count: u32 = context.adjust_sample_count(sample_cnt);
        Surface::make_gpu(
            info,
            Backing::GpuTexture {
                context: *context,
                texture_id: backend_texture.id,
                sample_count,
                origin,
            },
            props_from(surface_props),
        )
    }

    /// Wraps an existing GPU render target; the caller keeps it valid for
    /// the surface's whole lifetime. Yields a surface exactly when the
    /// target's configuration is acceptable to the context, as for a
    /// texture.
    pub fn from_backend_render_target(
        context: &RecordingContext,
        backend_render_target: &BackendRenderTarget,
        origin: SurfaceOrigin,
        color_type: ColorType,
        color_space: ColorSpace,
        surface_props: Option<&SurfaceProps>,
    ) -> (r: Option<Surface>)
        requires
            context.wf(),
        ensures
            ({
                let info = Surface::spec_gpu_info(
                    backend_render_target.width,
                    backend_render_target.height,
                    color_type,
                    color_space,
                );
                &&& (r is Some <==> context.spec_supports_info(info) && color_type
                    == backend_render_target.color_type && info.spec_byte_size(
                    info.spec_min_row_bytes(),
                ) <= usize::MAX)
                &&& r is Some ==> {
                    &&& r->0.wf()
                    &&& r->0.spec_info() == info
                    &&& r->0.spec_backing() == (Backing::GpuRenderTarget {
                        context: *context,
                        target_id: backend_render_target.id,
                        sample_count: context.spec_adjust_sample_count(
                            backend_render_target.sample_count,
                        ),
                        origin,
                    })
                    &&& r->0.spec_generation() == 1
                    &&& r->0.spec_props() == props_or_default(surface_props)
                }
            }),
    {
        let info = ImageInfo {
            width: backend_render_target.width,
            height: backend_render_target.height,
            color_type,
            alpha_type: AlphaType::Premul,
            color_space,
        };
        if !context.supports_info(&info) || color_type != backend_render_target.color_type {
            return None;
        }
        let sample_count: u32 = context.adjust_sample_count(backend_render_target.sample_count);
        Surface::make_gpu(
            info,
            Backing::GpuRenderTarget {
                context: *context,
                target_id: backend_render_target.id,
                sample_count,
                origin,
            },
            props_from(surface_props),
        )
    }

    /// Allocates a new GPU render target. Yields a surface exactly when the
    /// context accepts the format: positive shape within its texture-size
    /// limit, sRGB only where supported. Budgeting and mip-map hints are the
    /// context's concern and do not change what the surface reports. The
    /// sample-count request is rounded into the supported range; the origin
    /// defaults to the bottom-left corner.
    pub fn new_render_target(
        context: &RecordingContext,
        budgeted: Budgeted,
        image_info: &ImageInfo,
        sample_count: u32,
        surface_origin: Option<SurfaceOrigin>,
        surface_props: Option<&SurfaceProps>,
        should_create_with_mips: bool,
    ) -> (r: Option<Surface>)
        requires
            context.wf(),
        ensures
            r is Some <==> context.spec_supports_info(*image_info) && image_info.spec_byte_size(
                image_info.spec_min_row_bytes(),
            ) <= usize::MAX,
            r is Some ==> {
                &&& r->0.wf()
                &&& r->0.spec_info() == *image_info
                &&& r->0.spec_backing() == (Backing::GpuRenderTarget {
                    context: *context,
                    target_id: 0,
                    sample_count: context.spec_adjust_sample_count(sample_count),
                    origin: match surface_origin {
                        Some(o) => o,
                        None => SurfaceOrigin::BottomLeft,
                    },
                })
                &&& r->0.spec_generation() == 1
                &&& r->0.spec_props() == props_or_default(surface_props)
            },
    {
        let _ = budgeted;
        let _ = should_create_with_mips;
        if !context.supports_info(image_info) {
            return None;
        }
        let origin: SurfaceOrigin = match surface_origin {
            Some(o) => o,
            None => SurfaceOrigin::BottomLeft,
        };
        let sample: u32 = context.adjust_sample_count(sample_count);
        Surface::make_gpu(
            *image_info,
            Backing::GpuRenderTarget { context: *context, target_id: 0, sample_count: sample, origin },
            props_from(surface_props),
        )
    }

    /// Allocates a GPU render target compatible with the given
    /// characterization, so that command streams recorded against the
    /// characterization can replay onto it: the produced surface reports
    /// itself compatible with exactly that characterization.
    pub fn new_render_target_with_characterization(
        context: &RecordingContext,
        characterization: &SurfaceCharacterization,
        budgeted: Budgeted,
    ) -> (r: Option<Surface>)
        requires
            context.wf(),
        ensures
            r is Some <==> context.spec_supports_info(characterization.image_info) && 1
                <= characterization.sample_count <= context.max_sample_count
                && characterization.image_info.spec_byte_size(
                characterization.image_info.spec_min_row_bytes(),
            ) <= usize::MAX,
            r is Some ==> {
                &&& r->0.wf()
                &&& r->0.spec_is_compatible(*characterization)
                &&& r->0.spec_info() == characterization.image_info
                &&& r->0.spec_props() == characterization.props
                &&& r->0.spec_generation() == 1
            },
    {
        let _ = budgeted;
        if !context.supports_info(&characterization.image_info) {
            return None;
        }
        if characterization.sample_count < 1 || characterization.sample_count
            > context.max_sample_count {
            return None;
        }
        Surface::make_gpu(
            characterization.image_info,
            Backing::GpuRenderTarget {
                context: *context,
                target_id: 0,
                sample_count: characterization.sample_count,
                origin: characterization.origin,
            },
            characterization.props,
        )
    }

    /// The surface can serve as the destination of command streams recorded
    /// against this characterization: it is GPU-backed and every
    /// configuration field agrees.
    pub open spec fn spec_is_compatible(self, characterization: SurfaceCharacterization) -> bool {
        &&& self.spec_backing().spec_is_gpu()
        &&& characterization.image_info == self.spec_info()
        &&& characterization.sample_count == self.spec_backing().spec_sample_count()
        &&& characterization.origin == self.spec_backing().spec_origin()
        &&& characterization.props == self.spec_props()
    }

    /// Whether this surface is a viable destination for work recorded
    /// against the characterization.
    pub fn is_compatible(&self, characterization: &SurfaceCharacterization) -> (r: bool)
        ensures
            r == self.spec_is_compatible(*characterization),
    {
        let (is_gpu, sample_count, origin): (bool, u32, SurfaceOrigin) = match &self.canvas.backing {
            Backing::GpuTexture { sample_count, origin, .. } => (true, *sample_count, *origin),
            Backing::GpuRenderTarget { sample_count, origin, .. } => (true, *sample_count, *origin),
            _ => (false, 1, SurfaceOrigin::TopLeft),
        };
        is_gpu && characterization.image_info == self.canvas.info && characterization.sample_count
            == sample_count && characterization.origin == origin && characterization.props
            == self.props
    }

    /// Compatibility is an equality-like predicate: a surface is compatible
    /// with at most one characterization, so workers that recorded against
    /// equal characterizations can merge their results into one target.
    pub proof fn lemma_compatible_characterization_unique(
        self,
        c1: SurfaceCharacterization,
        c2: SurfaceCharacterization,
    )
        requires
            self.spec_is_compatible(c1),
            self.spec_is_compatible(c2),
        ensures
            c1 == c2,
    {
    }

    /// The characterization of this surface's configuration, for GPU-backed
    /// surfaces; a raster or null surface supports none.
    pub fn characterize(&self) -> (r: Option<SurfaceCharacterization>)
        ensures
            r is Some <==> self.spec_backing().spec_is_gpu(),
            r is Some ==> r->0 == (SurfaceCharacterization {
                image_info: self.spec_info(),
                sample_count: self.spec_backing().spec_sample_count(),
                origin: self.spec_backing().spec_origin(),
                props: self.spec_props(),
            }),
            r is Some ==> self.spec_is_compatible(r->0),
    {
        match &self.canvas.backing {
            Backing::GpuTexture { sample_count, origin, .. } => Some(
                SurfaceCharacterization {
                    image_info: self.canvas.info,
                    sample_count: *sample_count,
                    origin: *origin,
                    props: self.props,
                },
            ),
            Backing::GpuRenderTarget { sample_count, origin, .. } => Some(
                SurfaceCharacterization {
                    image_info: self.canvas.info,
                    sample_count: *sample_count,
                    origin: *origin,
                    props: self.props,
                },
            ),
            _ => None,
        }
    }

    /// Pixel column count; always positive.
    pub fn width(&self) -> (r: i32)
        ensures
            r == self.spec_info().width,
    {
        self.canvas.width()
    }

    /// Pixel row count; always positive.
    pub fn height(&self) -> (r: i32)
        ensures
            r == self.spec_info().height,
    {
        self.canvas.height()
    }

    pub fn image_info(&mut self) -> (r: ImageInfo)
        ensures
            *final(self) == *old(self),
            r == old(self).spec_info(),
    {
        self.canvas.image_info()
    }

    /// The content version: it changes whenever the contents are drawn to,
    /// written to, or declared changed from outside.
    pub fn generation_id(&mut self) -> (r: u64)
        ensures
            *final(self) == *old(self),
            r == old(self).spec_generation(),
    {
        self.canvas.generation_id()
    }

    /// Declares that the contents are about to change outside of this
    /// library's operations: the content version strictly increases.
    /// Discarding is a backend hint; the model keeps the bytes either way.
    pub fn notify_content_will_change(&mut self, mode: ContentChangeMode) -> (r: &mut Surface)
        requires
            old(self).wf(),
            old(self).spec_generation() < u64::MAX,
        ensures
            *final(self) == *final(r),
            r.wf(),
            Surface::spec_same_config(*r, *old(self)),
            r.spec_pixels() == old(self).spec_pixels(),
            r.spec_generation() == old(self).spec_generation() + 1,
            r.spec_canvas().spec_pending_commands() == old(self).spec_canvas()
                .spec_pending_commands(),
            r.spec_canvas().spec_unresolved_msaa() == old(self).spec_canvas()
                .spec_unresolved_msaa(),
    {
        let _ = mode;
        self.canvas.generation = self.canvas.generation + 1;
        self
    }

    /// The drawing context this surface owns: the same one on every call,
    /// created with the surface and destroyed with it. What the caller does
    /// through it lands back in this surface.
    pub fn canvas(&mut self) -> (r: &mut Canvas)
        ensures
            *r == old(self).spec_canvas(),
            final(self).spec_canvas() == *final(r),
            final(self).spec_props() == old(self).spec_props(),
    {
        &mut self.canvas
    }

    /// Whether this surface can derive an independent sibling of the given
    /// format: the shape is positive, the allocation fits the machine word
    /// (a null sink allocates nothing), and a GPU context accepts the
    /// format.
    pub open spec fn spec_can_derive(self, info: ImageInfo) -> bool {
        match self.spec_backing() {
            Backing::Null => info.spec_is_valid(),
            Backing::Raster => info.spec_is_valid() && info.spec_byte_size(
                info.spec_min_row_bytes(),
            ) <= usize::MAX,
            Backing::GpuTexture { context, .. } => context.spec_supports_info(info)
                && info.spec_byte_size(info.spec_min_row_bytes()) <= usize::MAX,
            Backing::GpuRenderTarget { context, .. } => context.spec_supports_info(info)
                && info.spec_byte_size(info.spec_min_row_bytes()) <= usize::MAX,
        }
    }

    /// What backs a derived sibling: raster stays raster, null stays null,
    /// and either GPU backing becomes a newly allocated render target on the
    /// same context with the same sampling and origin.
    pub open spec fn spec_derived_backing(self) -> Backing {
        match self.spec_backing() {
            Backing::Null => Backing::Null,
            Backing::Raster => Backing::Raster,
            Backing::GpuTexture { context, sample_count, origin, .. } => Backing::GpuRenderTarget {
                context,
                target_id: 0,
                sample_count,
                origin,
            },
            Backing::GpuRenderTarget { context, sample_count, origin, .. } => Backing::GpuRenderTarget {
                context,
                target_id: 0,
                sample_count,
                origin,
            },
        }
    }

    /// A compatible surface of the given format: the same backing family
    /// (raster stays raster, GPU stays GPU, null stays null), the same style
    /// properties, fresh zeroed contents, no sharing of pixel storage.
    /// Yields nothing when the shape is degenerate, the byte size exceeds
    /// the machine word, or a GPU context refuses the format.
    pub fn new_surface(&mut self, image_info: &ImageInfo) -> (r: Option<Surface>)
        requires
            old(self).wf(),
        ensures
            *final(self) == *old(self),
            r is Some <==> old(self).spec_can_derive(*image_info),
            r is Some ==> {
                &&& r->0.wf()
                &&& r->0.spec_info() == *image_info
                &&& r->0.spec_generation() == 1
                &&& r->0.spec_props() == old(self).spec_props()
                &&& r->0.spec_backing() == old(self).spec_derived_backing()
                &&& !(r->0.spec_backing() is Null) ==> r->0.spec_pixels() =~= Seq::new(
                    image_info.spec_byte_size(image_info.spec_min_row_bytes()) as nat,
                    |i: int| 0u8,
                )
            },
    {
        match &self.canvas.backing {
            Backing::Null => {
                if image_info.is_valid() {
                    Some(
                        Surface::from_parts(
                            *image_info,
                            0,
                            Backing::Null,
                            Vec::new(),
                            self.props,
                        ),
                    )
                } else {
                    None
                }
            },
            Backing::Raster => Surface::new_raster(image_info, None, Some(&self.props)),
            Backing::GpuTexture { context, sample_count, origin, .. } => {
                if context.supports_info(image_info) {
                    Surface::make_gpu(
                        *image_info,
                        Backing::GpuRenderTarget {
                            context: *context,
                            target_id: 0,
                            sample_count: *sample_count,
                            origin: *origin,
                        },
                        self.props,
                    )
                } else {
                    None
                }
            },
            Backing::GpuRenderTarget { context, sample_count, origin, .. } => {
                if context.supports_info(image_info) {
                    Surface::make_gpu(
                        *image_info,
                        Backing::GpuRenderTarget {
                            context: *context,
                            target_id: 0,
                            sample_count: *sample_count,
                            origin: *origin,
                        },
                        self.props,
                    )
                } else {
                    None
                }
            },
        }
    }

    /// [`Surface::new_surface`] with this surface's format at new
    /// dimensions.
    pub fn new_surface_with_dimensions(&mut self, dim: ISize) -> (r: Option<Surface>)
        requires
            old(self).wf(),
        ensures
            *final(self) == *old(self),
            r is Some <==> old(self).spec_can_derive(
                ImageInfo { width: dim.width, height: dim.height, ..old(self).spec_info() },
            ),
            r is Some ==> {
                &&& r->0.wf()
                &&& r->0.spec_info() == (ImageInfo {
                    width: dim.width,
                    height: dim.height,
                    ..old(self).spec_info()
                })
                &&& r->0.spec_generation() == 1
                &&& r->0.spec_props() == old(self).spec_props()
                &&& r->0.spec_backing() == old(self).spec_derived_backing()
            },
    {
        let info = ImageInfo {
            width: dim.width,
            height: dim.height,
            color_type: self.canvas.info.color_type,
            alpha_type: self.canvas.info.alpha_type,
            color_space: self.canvas.info.color_space,
        };
        self.new_surface(&info)
    }

    /// An immutable capture of the whole surface: the image holds its own
    /// copy of the bytes, so later drawing to this surface cannot affect it.
    /// A null surface yields no image.
    pub fn image_snapshot(&mut self) -> (r: Option<Image>)
        requires
            old(self).wf(),
        ensures
            *final(self) == *old(self),
            r is Some <==> !(old(self).spec_backing() is Null),
            r is Some ==> {
                &&& r->0.wf()
                &&& r->0.spec_info() == old(self).spec_info()
                &&& r->0.spec_row_bytes() == old(self).spec_row_bytes()
                &&& r->0.spec_pixels() == old(self).spec_pixels()
            },
    {
        if self.canvas.backing.is_null() {
            return None;
        }
        let pixels = duplicate_buffer(&self.canvas.pixels);
        Some(Image::from_parts(self.canvas.info, self.canvas.row_bytes, pixels))
    }

    /// An immutable capture of the part of the surface the given bounds
    /// cover: the bounds are intersected with the surface, and a rectangle
    /// that misses the surface entirely yields no image, as does a null
    /// surface. The image's shape is the intersection; its pixels are the
    /// covered bytes, copied at the minimal stride.
    pub fn image_snapshot_with_bounds(&mut self, bounds: IRect) -> (r: Option<Image>)
        requires
            old(self).wf(),
        ensures
            *final(self) == *old(self),
            ({
                let surface_rect = IRect {
                    left: 0,
                    top: 0,
                    right: old(self).spec_info().width,
                    bottom: old(self).spec_info().height,
                };
                let clip = IRect::spec_intersect(bounds, surface_rect);
                &&& (r is Some <==> !(old(self).spec_backing() is Null)
                    && !clip.spec_is_empty())
                &&& r is Some ==> {
                    &&& r->0.wf()
                    &&& r->0.spec_info() == (ImageInfo {
                        width: clip.spec_width() as i32,
                        height: clip.spec_height() as i32,
                        ..old(self).spec_info()
                    })
                    &&& r->0.spec_row_bytes() == r->0.spec_info().spec_min_row_bytes()
                    &&& r->0.spec_pixels() == spec_copy(
                        Seq::new(
                            r->0.spec_info().spec_byte_size(
                                r->0.spec_info().spec_min_row_bytes(),
                            ) as nat,
                            |i: int| 0u8,
                        ),
                        r->0.spec_info(),
                        r->0.spec_info().spec_min_row_bytes(),
                        old(self).spec_pixels(),
                        old(self).spec_info(),
                        old(self).spec_row_bytes(),
                        -clip.left,
                        -clip.top,
                    )
                    // Pixel for pixel: the image holds the covered surface
                    // bytes.
                    &&& forall|x: int, y: int|
                        0 <= x < clip.spec_width() && 0 <= y < clip.spec_height()
                            ==> crate::pixels::spec_pixel_bytes(
                            r->0.spec_pixels(),
                            r->0.spec_row_bytes(),
                            old(self).spec_info().spec_bytes_per_pixel(),
                            x,
                            y,
                        ) == crate::pixels::spec_pixel_bytes(
                            old(self).spec_pixels(),
                            old(self).spec_row_bytes(),
                            old(self).spec_info().spec_bytes_per_pixel(),
                            x + clip.left,
                            y + clip.top,
                        )
                }
            }),
    {
        if self.canvas.backing.is_null() {
            return None;
        }
        let surface_rect = IRect {
            left: 0,
            top: 0,
            right: self.canvas.info.width,
            bottom: self.canvas.info.height,
        };
        let clip = IRect::intersect(&bounds, &surface_rect);
        if clip.is_empty() {
            return None;
        }
        let info2 = ImageInfo {
            width: clip.right - clip.left,
            height: clip.bottom - clip.top,
            color_type: self.canvas.info.color_type,
            alpha_type: self.canvas.info.alpha_type,
            color_space: self.canvas.info.color_space,
        };
        let bpp: usize = info2.bytes_per_pixel();
        // Witnesses that the surface's byte size fits the machine word.
        let surface_len: usize = self.canvas.pixels.len();
        proof {
            // The clipped region's stride and byte size stay within the
            // surface's, which fit the machine word.
            vstd::arithmetic::mul::lemma_mul_inequality(
                info2.width as int,
                self.canvas.info.width as int,
                bpp as int,
            );
            vstd::arithmetic::mul::lemma_mul_upper_bound(
                info2.height - 1,
                self.canvas.info.height - 1,
                info2.spec_min_row_bytes(),
                self.canvas.spec_row_bytes(),
            );
            vstd::arithmetic::mul::lemma_mul_nonnegative(
                self.canvas.info.height - 1,
                self.canvas.spec_row_bytes(),
            );
            assert(info2.spec_byte_size(info2.spec_min_row_bytes()) <= self.canvas.info
                .spec_byte_size(self.canvas.spec_row_bytes()));
        }
        let min_rb2: usize = (info2.width as usize) * bpp;
        let size2: usize = info2.compute_byte_size(min_rb2);
        let mut buf = zeroed_buffer(size2);
        copy_pixels(
            &mut buf,
            &info2,
            min_rb2,
            &self.canvas.pixels,
            &self.canvas.info,
            self.canvas.row_bytes,
            -(clip.left as i64),
            -(clip.top as i64),
        );
        proof {
            let ghost zeros = Seq::new(
                info2.spec_byte_size(info2.spec_min_row_bytes()) as nat,
                |i: int| 0u8,
            );
            let bpp_s = self.canvas.info.spec_bytes_per_pixel();
            assert forall|x: int, y: int|
                0 <= x < clip.spec_width() && 0 <= y < clip.spec_height() implies
                crate::pixels::spec_pixel_bytes(
                    buf@,
                    info2.spec_min_row_bytes(),
                    bpp_s,
                    x,
                    y,
                ) == crate::pixels::spec_pixel_bytes(
                    self.canvas.spec_pixels(),
                    self.canvas.spec_row_bytes(),
                    bpp_s,
                    x + clip.left,
                    y + clip.top,
                ) by {
                crate::pixels::lemma_copy_covered_pixel(
                    zeros,
                    info2,
                    info2.spec_min_row_bytes(),
                    self.canvas.spec_pixels(),
                    self.canvas.info,
                    self.canvas.spec_row_bytes(),
                    -clip.left as int,
                    -clip.top as int,
                    x,
                    y,
                );
            }
        }
        Some(Image::from_parts(info2, min_rb2, buf))
    }

    /// Copies the intersection of the surface (read from `src` onward) with
    /// the destination region into the caller's buffer, re-encoding between
    /// the formats where that needs no color math. Negative offsets shift
    /// the copied region within the destination. No byte is written — the
    /// buffer is left exactly as it was — unless `true` is returned: the
    /// surface has readable pixels, the stride and buffer are large enough
    /// for the destination region, the formats convert, and the rectangles
    /// intersect.
    pub fn read_pixels(
        &mut self,
        dst_info: &ImageInfo,
        dst_pixels: &mut Vec<u8>,
        dst_row_bytes: usize,
        src: IPoint,
    ) -> (r: bool)
        requires
            old(self).wf(),
        ensures
            *final(self) == *old(self),
            r == (!(old(self).spec_backing() is Null) && dst_info.spec_valid_pixels(
                dst_row_bytes as int,
                old(dst_pixels)@,
            ) && ImageInfo::spec_can_convert(old(self).spec_info(), *dst_info)
                && spec_copy_region_nonempty(
                *dst_info,
                old(self).spec_info(),
                -src.x,
                -src.y,
            )),
            r ==> final(dst_pixels)@ == spec_copy(
                old(dst_pixels)@,
                *dst_info,
                dst_row_bytes as int,
                old(self).spec_pixels(),
                old(self).spec_info(),
                old(self).spec_row_bytes(),
                -src.x,
                -src.y,
            ),
            !r ==> final(dst_pixels)@ == old(dst_pixels)@,
    {
        if self.canvas.backing.is_null() {
            return false;
        }
        if !dst_info.valid_pixels(dst_row_bytes, dst_pixels) {
            return false;
        }
        if !ImageInfo::can_convert(&self.canvas.info, dst_info) {
            return false;
        }
        let off_x: i64 = -(src.x as i64);
        let off_y: i64 = -(src.y as i64);
        if !region_nonempty(dst_info, &self.canvas.info, off_x, off_y) {
            return false;
        }
        copy_pixels(
            dst_pixels,
            dst_info,
            dst_row_bytes,
            &self.canvas.pixels,
            &self.canvas.info,
            self.canvas.row_bytes,
            off_x,
            off_y,
        );
        true
    }

    /// [`Surface::read_pixels`] with the destination described by a pixmap.
    pub fn read_pixels_to_pixmap(&mut self, dst: &mut Pixmap, src: IPoint) -> (r: bool)
        requires
            old(self).wf(),
        ensures
            *final(self) == *old(self),
            final(dst).spec_info() == old(dst).spec_info(),
            final(dst).spec_row_bytes() == old(dst).spec_row_bytes(),
            r == (!(old(self).spec_backing() is Null) && old(dst).spec_info().spec_valid_pixels(
                old(dst).spec_row_bytes(),
                old(dst).spec_pixels(),
            ) && ImageInfo::spec_can_convert(old(self).spec_info(), old(dst).spec_info())
                && spec_copy_region_nonempty(
                old(dst).spec_info(),
                old(self).spec_info(),
                -src.x,
                -src.y,
            )),
            r ==> final(dst).spec_pixels() == spec_copy(
                old(dst).spec_pixels(),
                old(dst).spec_info(),
                old(dst).spec_row_bytes(),
                old(self).spec_pixels(),
                old(self).spec_info(),
                old(self).spec_row_bytes(),
                -src.x,
                -src.y,
            ),
            !r ==> final(dst).spec_pixels() == old(dst).spec_pixels(),
    {
        let info = dst.image_info();
        let rb = dst.row_bytes();
        let buf = dst.pixels_mut();
        self.read_pixels(&info, buf, rb, src)
    }

    /// [`Surface::read_pixels`] with the destination described by a bitmap.
    pub fn read_pixels_to_bitmap(&mut self, bitmap: &mut Bitmap, src: IPoint) -> (r: bool)
        requires
            old(self).wf(),
        ensures
            *final(self) == *old(self),
            final(bitmap).spec_info() == old(bitmap).spec_info(),
            final(bitmap).spec_row_bytes() == old(bitmap).spec_row_bytes(),
            r == (!(old(self).spec_backing() is Null) && old(bitmap).spec_info().spec_valid_pixels(
                old(bitmap).spec_row_bytes(),
                old(bitmap).spec_pixels(),
            ) && ImageInfo::spec_can_convert(old(self).spec_info(), old(bitmap).spec_info())
                && spec_copy_region_nonempty(
                old(bitmap).spec_info(),
                old(self).spec_info(),
                -src.x,
                -src.y,
            )),
            r ==> final(bitmap).spec_pixels() == spec_copy(
                old(bitmap).spec_pixels(),
                old(bitmap).spec_info(),
                old(bitmap).spec_row_bytes(),
                old(self).spec_pixels(),
                old(self).spec_info(),
                old(self).spec_row_bytes(),
                -src.x,
                -src.y,
            ),
            !r ==> final(bitmap).spec_pixels() == old(bitmap).spec_pixels(),
    {
        let info = bitmap.image_info();
        let rb = bitmap.row_bytes();
        let buf = bitmap.pixels_mut();
        self.read_pixels(&info, buf, rb, src)
    }

    /// The copy a pixel import performs when it applies: the source placed
    /// at `dst` over the surface, clipped to both.
    pub open spec fn spec_write_applies(
        self,
        src_info: ImageInfo,
        src_row_bytes: int,
        src: Seq<u8>,
        dst: IPoint,
    ) -> bool {
        &&& !(self.spec_backing() is Null)
        &&& src_info.spec_is_valid()
        &&& src_info.spec_valid_pixels(src_row_bytes, src)
        &&& ImageInfo::spec_can_convert(src_info, self.spec_info())
        &&& spec_copy_region_nonempty(self.spec_info(), src_info, dst.x as int, dst.y as int)
    }

    /// Copies the source pixmap into the surface with its top-left corner at
    /// `dst`, clipped to the surface bounds and re-encoded where that needs
    /// no color math. When pixels land, the content version strictly
    /// increases; otherwise the copy silently does not happen.
    pub fn write_pixels_from_pixmap(&mut self, src: &Pixmap, dst: IPoint)
        requires
            old(self).wf(),
            src.wf(),
            old(self).spec_generation() < u64::MAX,
        ensures
            final(self).wf(),
            Surface::spec_same_config(*final(self), *old(self)),
            final(self).spec_canvas().spec_pending_commands() == old(self).spec_canvas()
                .spec_pending_commands(),
            final(self).spec_canvas().spec_unresolved_msaa() == old(self).spec_canvas()
                .spec_unresolved_msaa(),
            old(self).spec_write_applies(
                src.spec_info(),
                src.spec_row_bytes(),
                src.spec_pixels(),
                dst,
            ) ==> {
                &&& final(self).spec_pixels() == spec_copy(
                    old(self).spec_pixels(),
                    old(self).spec_info(),
                    old(self).spec_row_bytes(),
                    src.spec_pixels(),
                    src.spec_info(),
                    src.spec_row_bytes(),
                    dst.x as int,
                    dst.y as int,
                )
                &&& final(self).spec_generation() == old(self).spec_generation() + 1
            },
            !old(self).spec_write_applies(
                src.spec_info(),
                src.spec_row_bytes(),
                src.spec_pixels(),
                dst,
            ) ==> *final(self) == *old(self),
    {
        proof {
            src.lemma_wf();
        }
        let info = src.image_info();
        let rb = src.row_bytes();
        self.write_pixels_common(&info, src.pixels(), rb, dst);
    }

    /// Copies the source bitmap into the surface, exactly as
    /// [`Surface::write_pixels_from_pixmap`] does a pixmap.
    pub fn write_pixels_from_bitmap(&mut self, bitmap: &Bitmap, dst: IPoint)
        requires
            old(self).wf(),
            bitmap.wf(),
            old(self).spec_generation() < u64::MAX,
        ensures
            final(self).wf(),
            Surface::spec_same_config(*final(self), *old(self)),
            final(self).spec_canvas().spec_pending_commands() == old(self).spec_canvas()
                .spec_pending_commands(),
            final(self).spec_canvas().spec_unresolved_msaa() == old(self).spec_canvas()
                .spec_unresolved_msaa(),
            old(self).spec_write_applies(
                bitmap.spec_info(),
                bitmap.spec_row_bytes(),
                bitmap.spec_pixels(),
                dst,
            ) ==> {
                &&& final(self).spec_pixels() == spec_copy(
                    old(self).spec_pixels(),
                    old(self).spec_info(),
                    old(self).spec_row_bytes(),
                    bitmap.spec_pixels(),
                    bitmap.spec_info(),
                    bitmap.spec_row_bytes(),
                    dst.x as int,
                    dst.y as int,
                )
                &&& final(self).spec_generation() == old(self).spec_generation() + 1
            },
            !old(self).spec_write_applies(
                bitmap.spec_info(),
                bitmap.spec_row_bytes(),
                bitmap.spec_pixels(),
                dst,
            ) ==> *final(self) == *old(self),
    {
        proof {
            bitmap.lemma_wf();
        }
        let info = bitmap.image_info();
        let rb = bitmap.row_bytes();
        self.write_pixels_common(&info, bitmap.pixels(), rb, dst);
    }

    /// The shared import path behind both write operations.
    fn write_pixels_common(
        &mut self,
        src_info: &ImageInfo,
        src_pixels: &Vec<u8>,
        src_row_bytes: usize,
        dst: IPoint,
    )
        requires
            old(self).wf(),
            old(self).spec_generation() < u64::MAX,
            src_info.spec_valid_pixels(src_row_bytes as int, src_pixels@),
        ensures
            final(self).wf(),
            Surface::spec_same_config(*final(self), *old(self)),
            final(self).spec_canvas().spec_pending_commands() == old(self).spec_canvas()
                .spec_pending_commands(),
            final(self).spec_canvas().spec_unresolved_msaa() == old(self).spec_canvas()
                .spec_unresolved_msaa(),
            old(self).spec_write_applies(*src_info, src_row_bytes as int, src_pixels@, dst) ==> {
                &&& final(self).spec_pixels() == spec_copy(
                    old(self).spec_pixels(),
                    old(self).spec_info(),
                    old(self).spec_row_bytes(),
                    src_pixels@,
                    *src_info,
                    src_row_bytes as int,
                    dst.x as int,
                    dst.y as int,
                )
                &&& final(self).spec_generation() == old(self).spec_generation() + 1
            },
            !old(self).spec_write_applies(*src_info, src_row_bytes as int, src_pixels@, dst)
                ==> *final(self) == *old(self),
    {
        if self.canvas.backing.is_null() {
            return ;
        }
        if !src_info.is_valid() {
            return ;
        }
        if !ImageInfo::can_convert(src_info, &self.canvas.info) {
            return ;
        }
        if !region_nonempty(&self.canvas.info, src_info, dst.x as i64, dst.y as i64) {
            return ;
        }
        copy_pixels(
            &mut self.canvas.pixels,
            &self.canvas.info,
            self.canvas.row_bytes,
            src_pixels,
            src_info,
            src_row_bytes,
            dst.x as i64,
            dst.y as i64,
        );
        self.canvas.generation = self.canvas.generation + 1;
    }

    /// Renders this surface's current pixels into another drawing context
    /// with the top-left corner at `offset`. Without a paint the transfer is
    /// the unscaled blit the canvas specifies exactly; with a paint the
    /// engine's filtered rendering is recorded as a content change only.
    /// Either way the target's content version strictly increases.
    pub fn draw(
        &mut self,
        canvas: &mut Canvas,
        offset: IPoint,
        sampling: SamplingOptions,
        paint: Option<&Paint>,
    )
        requires
            old(self).wf(),
            old(canvas).wf(),
            old(canvas).spec_generation() < u64::MAX,
        ensures
            *final(self) == *old(self),
            final(canvas).wf(),
            Canvas::spec_same_config(*final(canvas), *old(canvas)),
            final(canvas).spec_generation() == old(canvas).spec_generation() + 1,
            paint is None && old(canvas).spec_blit_applies(
                old(self).spec_info(),
                old(self).spec_row_bytes(),
                old(self).spec_pixels(),
            ) ==> final(canvas).spec_pixels() == spec_copy(
                old(canvas).spec_pixels(),
                old(canvas).spec_info(),
                old(canvas).spec_row_bytes(),
                old(self).spec_pixels(),
                old(self).spec_info(),
                old(self).spec_row_bytes(),
                offset.x as int,
                offset.y as int,
            ),
            !(paint is None && old(canvas).spec_blit_applies(
                old(self).spec_info(),
                old(self).spec_row_bytes(),
                old(self).spec_pixels(),
            )) ==> final(canvas).spec_pixels() == old(canvas).spec_pixels(),
            final(canvas).spec_pending_commands() == (old(canvas).spec_pending_commands() || old(
                canvas,
            ).spec_backing().spec_is_gpu()),
            final(canvas).spec_unresolved_msaa() == (old(canvas).spec_unresolved_msaa() || (old(
                canvas,
            ).spec_backing().spec_is_gpu() && old(canvas).spec_backing().spec_sample_count() > 1)),
    {
        let _ = sampling;
        match paint {
            None => {
                canvas.draw_image(
                    &self.canvas.info,
                    &self.canvas.pixels,
                    self.canvas.row_bytes,
                    offset,
                );
            },
            Some(_) => {
                canvas.record_draw();
            },
        }
    }

    /// Direct access to the raster pixels, as a copy of the descriptor and
    /// bytes at the moment of the call; a GPU-backed or null surface has
    /// none to peek at.
    pub fn peek_pixels(&mut self) -> (r: Option<Pixmap>)
        requires
            old(self).wf(),
        ensures
            *final(self) == *old(self),
            r is Some <==> old(self).spec_backing() is Raster,
            r is Some ==> {
                &&& r->0.wf()
                &&& r->0.spec_info() == old(self).spec_info()
                &&& r->0.spec_row_bytes() == old(self).spec_row_bytes()
                &&& r->0.spec_pixels() == old(self).spec_pixels()
            },
    {
        match &self.canvas.backing {
            Backing::Raster => {
                let pixels = duplicate_buffer(&self.canvas.pixels);
                Some(Pixmap::from_parts(self.canvas.info, self.canvas.row_bytes, pixels))
            },
            _ => None,
        }
    }

    /// Issues recorded commands to the GPU API and resolves multisampled
    /// contents; a raster or null surface has nothing to flush. Submission
    /// happens with the flush here, so no commands stay recorded.
    pub fn flush_and_submit(&mut self)
        requires
            old(self).wf(),
        ensures
            final(self).wf(),
            Surface::spec_same_config(*final(self), *old(self)),
            final(self).spec_pixels() == old(self).spec_pixels(),
            final(self).spec_generation() == old(self).spec_generation(),
            !final(self).spec_canvas().spec_pending_commands(),
            !final(self).spec_canvas().spec_unresolved_msaa(),
    {
        self.canvas.pending_commands = false;
        self.canvas.unresolved_msaa = false;
    }

    /// [`Surface::flush_and_submit`], waiting for the GPU to finish; the
    /// wait leaves no further trace in the surface's state.
    pub fn flush_submit_and_sync_cpu(&mut self)
        requires
            old(self).wf(),
        ensures
            final(self).wf(),
            Surface::spec_same_config(*final(self), *old(self)),
            final(self).spec_pixels() == old(self).spec_pixels(),
            final(self).spec_generation() == old(self).spec_generation(),
            !final(self).spec_canvas().spec_pending_commands(),
            !final(self).spec_canvas().spec_unresolved_msaa(),
    {
        self.canvas.pending_commands = false;
        self.canvas.unresolved_msaa = false;
    }

    /// Issues recorded commands to the GPU API objects and resolves any
    /// multisampled contents. A separate submission completes the work on
    /// the device; that is the context collaborator's step and leaves no
    /// trace here.
    pub fn flush(&mut self)
        requires
            old(self).wf(),
        ensures
            final(self).wf(),
            Surface::spec_same_config(*final(self), *old(self)),
            final(self).spec_pixels() == old(self).spec_pixels(),
            final(self).spec_generation() == old(self).spec_generation(),
            !final(self).spec_canvas().spec_pending_commands(),
            !final(self).spec_canvas().spec_unresolved_msaa(),
    {
        self.canvas.pending_commands = false;
        self.canvas.unresolved_msaa = false;
    }

    /// Inserts a resolve of multisampled contents into the command stream
    /// without issuing the stream itself: recorded commands stay recorded.
    /// A surface without unresolved multisampling is left as it is.
    pub fn resolve_msaa(&mut self)
        requires
            old(self).wf(),
        ensures
            final(self).wf(),
            Surface::spec_same_config(*final(self), *old(self)),
            final(self).spec_pixels() == old(self).spec_pixels(),
            final(self).spec_generation() == old(self).spec_generation(),
            final(self).spec_canvas().spec_pending_commands() == old(self).spec_canvas()
                .spec_pending_commands(),
            !final(self).spec_canvas().spec_unresolved_msaa(),
    {
        self.canvas.unresolved_msaa = false;
    }

    /// [`Surface::flush`] with an access request for the backend object;
    /// the model passes no semaphores in, so none are submitted — the flush
    /// itself still happens.
    pub fn flush_with_access_info(
        &mut self,
        access: BackendSurfaceAccess,
        info: &FlushInfo,
    ) -> (r: SemaphoresSubmitted)
        requires
            old(self).wf(),
        ensures
            final(self).wf(),
            Surface::spec_same_config(*final(self), *old(self)),
            final(self).spec_pixels() == old(self).spec_pixels(),
            final(self).spec_generation() == old(self).spec_generation(),
            !final(self).spec_canvas().spec_pending_commands(),
            !final(self).spec_canvas().spec_unresolved_msaa(),
            r == SemaphoresSubmitted::No,
    {
        let _ = access;
        let _ = info;
        self.canvas.pending_commands = false;
        self.canvas.unresolved_msaa = false;
        SemaphoresSubmitted::No
    }

    /// [`Surface::flush`] with a requested texture-state transition, an
    /// engine-side hint with no observable effect here.
    pub fn flush_with_mutable_state(
        &mut self,
        info: &FlushInfo,
        new_state: Option<&MutableTextureState>,
    ) -> (r: SemaphoresSubmitted)
        requires
            old(self).wf(),
        ensures
            final(self).wf(),
            Surface::spec_same_config(*final(self), *old(self)),
            final(self).spec_pixels() == old(self).spec_pixels(),
            final(self).spec_generation() == old(self).spec_generation(),
            !final(self).spec_canvas().spec_pending_commands(),
            !final(self).spec_canvas().spec_unresolved_msaa(),
            r == SemaphoresSubmitted::No,
    {
        let _ = info;
        let _ = new_state;
        self.canvas.pending_commands = false;
        self.canvas.unresolved_msaa = false;
        SemaphoresSubmitted::No
    }

    /// The recording context a GPU-backed surface draws through; a raster or
    /// null surface has none.
    pub fn recording_context(&mut self) -> (r: Option<RecordingContext>)
        ensures
            *final(self) == *old(self),
            r == (match old(self).spec_backing() {
                Backing::GpuTexture { context, .. } => Some(context),
                Backing::GpuRenderTarget { context, .. } => Some(context),
                _ => None::<RecordingContext>,
            }),
    {
        match &self.canvas.backing {
            Backing::GpuTexture { context, .. } => Some(*context),
            Backing::GpuRenderTarget { context, .. } => Some(*context),
            _ => None,
        }
    }

    /// The texture backing this surface, after flushing recorded work so the
    /// caller sees a settled object; only a texture-backed surface has one.
    /// The handle should be discarded once the surface is drawn to again.
    pub fn get_backend_texture(&mut self, handle_access: BackendHandleAccess) -> (r: Option<
        BackendTexture,
    >)
        requires
            old(self).wf(),
        ensures
            final(self).wf(),
            Surface::spec_same_config(*final(self), *old(self)),
            final(self).spec_pixels() == old(self).spec_pixels(),
            final(self).spec_generation() == old(self).spec_generation(),
            !final(self).spec_canvas().spec_pending_commands(),
            !final(self).spec_canvas().spec_unresolved_msaa(),
            r is Some <==> old(self).spec_backing() is GpuTexture,
            r is Some ==> r->0 == (BackendTexture {
                width: old(self).spec_info().width,
                height: old(self).spec_info().height,
                color_type: old(self).spec_info().color_type,
                color_space: old(self).spec_info().color_space,
                sample_count: old(self).spec_backing().spec_sample_count(),
                id: old(self).spec_backing()->GpuTexture_texture_id,
            }),
    {
        let _ = handle_access;
        self.canvas.pending_commands = false;
        self.canvas.unresolved_msaa = false;
        match &self.canvas.backing {
            Backing::GpuTexture { texture_id, sample_count, .. } => Some(
                BackendTexture {
                    width: self.canvas.info.width,
                    height: self.canvas.info.height,
                    color_type: self.canvas.info.color_type,
                    color_space: self.canvas.info.color_space,
                    sample_count: *sample_count,
                    id: *texture_id,
                },
            ),
            _ => None,
        }
    }

    /// The render target backing this surface, after flushing recorded
    /// work; only a render-target-backed surface has one.
    pub fn get_backend_render_target(&mut self, handle_access: BackendHandleAccess) -> (r: Option<
        BackendRenderTarget,
    >)
        requires
            old(self).wf(),
        ensures
            final(self).wf(),
            Surface::spec_same_config(*final(self), *old(self)),
            final(self).spec_pixels() == old(self).spec_pixels(),
            final(self).spec_generation() == old(self).spec_generation(),
            !final(self).spec_canvas().spec_pending_commands(),
            !final(self).spec_canvas().spec_unresolved_msaa(),
            r is Some <==> old(self).spec_backing() is GpuRenderTarget,
            r is Some ==> r->0 == (BackendRenderTarget {
                width: old(self).spec_info().width,
                height: old(self).spec_info().height,
                color_type: old(self).spec_info().color_type,
                color_space: old(self).spec_info().color_space,
                sample_count: old(self).spec_backing().spec_sample_count(),
                id: old(self).spec_backing()->GpuRenderTarget_target_id,
            }),
    {
        let _ = handle_access;
        self.canvas.pending_commands = false;
        self.canvas.unresolved_msaa = false;
        match &self.canvas.backing {
            Backing::GpuRenderTarget { target_id, sample_count, .. } => Some(
                BackendRenderTarget {
                    width: self.canvas.info.width,
                    height: self.canvas.info.height,
                    color_type: self.canvas.info.color_type,
                    color_space: self.canvas.info.color_space,
                    sample_count: *sample_count,
                    id: *target_id,
                },
            ),
            _ => None,
        }
    }

    /// [`Surface::replace_backend_texture_with_mode`], retaining the
    /// contents.
    pub fn replace_backend_texture(
        &mut self,
        backend_texture: &BackendTexture,
        origin: SurfaceOrigin,
    ) -> (r: bool)
        requires
            old(self).wf(),
            old(self).spec_generation() < u64::MAX,
        ensures
            final(self).wf(),
            r == old(self).spec_replace_applies(*backend_texture),
            r ==> {
                &&& final(self).spec_backing() == (Backing::GpuTexture {
                    context: old(self).spec_backing()->GpuTexture_context,
                    texture_id: backend_texture.id,
                    sample_count: old(self).spec_backing().spec_sample_count(),
                    origin,
                })
                &&& final(self).spec_info() == old(self).spec_info()
                &&& final(self).spec_row_bytes() == old(self).spec_row_bytes()
                &&& final(self).spec_pixels() == old(self).spec_pixels()
                &&& final(self).spec_generation() == old(self).spec_generation() + 1
                &&& final(self).spec_props() == old(self).spec_props()
            },
            !r ==> *final(self) == *old(self),
    {
        self.replace_backend_texture_with_mode(backend_texture, origin, None)
    }

    /// The replacement texture can substitute for the current backing: the
    /// surface is texture-backed and the new texture's shape and color type
    /// match the original's.
    pub open spec fn spec_replace_applies(self, backend_texture: BackendTexture) -> bool {
        &&& self.spec_backing() is GpuTexture
        &&& backend_texture.width == self.spec_info().width
        &&& backend_texture.height == self.spec_info().height
        &&& backend_texture.color_type == self.spec_info().color_type
    }

    /// Substitutes the backing texture with another of the same shape and
    /// format, copying the contents across (so the pixels are unchanged) and
    /// keeping the canvas state and sample count; the content version
    /// advances with the new backing. Fails, changing nothing, when the
    /// surface is not texture-backed or the replacement does not match.
    pub fn replace_backend_texture_with_mode(
        &mut self,
        backend_texture: &BackendTexture,
        origin: SurfaceOrigin,
        mode: Option<ContentChangeMode>,
    ) -> (r: bool)
        requires
            old(self).wf(),
            old(self).spec_generation() < u64::MAX,
        ensures
            final(self).wf(),
            r == old(self).spec_replace_applies(*backend_texture),
            r ==> {
                &&& final(self).spec_backing() == (Backing::GpuTexture {
                    context: old(self).spec_backing()->GpuTexture_context,
                    texture_id: backend_texture.id,
                    sample_count: old(self).spec_backing().spec_sample_count(),
                    origin,
                })
                &&& final(self).spec_info() == old(self).spec_info()
                &&& final(self).spec_row_bytes() == old(self).spec_row_bytes()
                &&& final(self).spec_pixels() == old(self).spec_pixels()
                &&& final(self).spec_generation() == old(self).spec_generation() + 1
                &&& final(self).spec_props() == old(self).spec_props()
            },
            !r ==> *final(self) == *old(self),
    {
        let _ = mode;
        match &self.canvas.backing {
            Backing::GpuTexture { context, sample_count, .. } => {
                if backend_texture.width == self.canvas.info.width && backend_texture.height
                    == self.canvas.info.height && backend_texture.color_type
                    == self.canvas.info.color_type {
                    self.canvas.backing = Backing::GpuTexture {
                        context: *context,
                        texture_id: backend_texture.id,
                        sample_count: *sample_count,
                        origin,
                    };
                    self.canvas.generation = self.canvas.generation + 1;
                    true
                } else {
                    false
                }
            },
            _ => false,
        }
    }

    /// Replays a deferred command stream onto this surface. The draw happens
    /// — advancing the content version and recording GPU work — exactly when
    /// the surface is compatible with the stream's characterization and the
    /// offset is zero (a non-zero offset is an unimplemented engine feature
    /// and the draw is refused). The replayed commands' raster output is the
    /// engine's and is not reproduced in the model's contents.
    pub fn draw_display_list_with_offset(
        &mut self,
        display_list: &DeferredDisplayList,
        offset: IPoint,
    ) -> (r: bool)
        requires
            old(self).wf(),
            old(self).spec_generation() < u64::MAX,
        ensures
            final(self).wf(),
            r == (old(self).spec_is_compatible(display_list.characterization) && offset.x == 0
                && offset.y == 0),
            r ==> {
                &&& Surface::spec_same_config(*final(self), *old(self))
                &&& final(self).spec_pixels() == old(self).spec_pixels()
                &&& final(self).spec_generation() == old(self).spec_generation() + 1
            },
            !r ==> *final(self) == *old(self),
    {
        if self.is_compatible(&display_list.characterization) && offset.x == 0 && offset.y == 0 {
            self.canvas.record_draw();
            true
        } else {
            false
        }
    }

    /// [`Surface::draw_display_list_with_offset`] at offset zero.
    pub fn draw_display_list(&mut self, display_list: &DeferredDisplayList) -> (r: bool)
        requires
            old(self).wf(),
            old(self).spec_generation() < u64::MAX,
        ensures
            final(self).wf(),
            r == old(self).spec_is_compatible(display_list.characterization),
            r ==> {
                &&& Surface::spec_same_config(*final(self), *old(self))
                &&& final(self).spec_pixels() == old(self).spec_pixels()
                &&& final(self).spec_generation() == old(self).spec_generation() + 1
            },
            !r ==> *final(self) == *old(self),
    {
        self.draw_display_list_with_offset(display_list, IPoint { x: 0, y: 0 })
    }

    /// Style properties, fixed at construction.
    pub fn props(&self) -> (r: &SurfaceProps)
        ensures
            *r == self.spec_props(),
    {
        &self.props
    }
}

/// The properties a surface is given when the caller passes none.
pub open spec fn props_or_default(surface_props: Option<&SurfaceProps>) -> SurfaceProps {
    match surface_props {
        Some(p) => *p,
        None => SurfaceProps {
            pixel_geometry: crate::image_info::PixelGeometry::Unknown,
            use_device_independent_fonts: false,
        },
    }
}

fn props_from(surface_props: Option<&SurfaceProps>) -> (r: SurfaceProps)
    ensures
        r == props_or_default(surface_props),
{
    match surface_props {
        Some(p) => *p,
        None => SurfaceProps::default_props(),
    }
}

} // verus!
