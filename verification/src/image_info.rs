//! Pixel-format descriptors: color type, alpha type, color space, and the
//! row-stride and byte-size arithmetic that every surface construction and
//! pixel transfer depends on.

use vstd::prelude::*;

use crate::geometry::ISize;

verus! {

/// How the bytes of one pixel encode color. The set is closed; every variant
/// has a fixed byte width given by [`ColorType::bytes_per_pixel`].
#[derive(Clone, Copy, Debug, PartialEq, Eq, Structural)]
pub enum ColorType {
    /// One byte per pixel, coverage only.
    Alpha8,
    /// Two bytes per pixel, 5-6-5 packed color.
    Rgb565,
    /// Four bytes per pixel, red first.
    Rgba8888,
    /// Four bytes per pixel, blue first.
    Bgra8888,
}

impl ColorType {
    /// The native 32-bit pixel arrangement used by the fixed-format
    /// construction path.
    pub fn n32() -> (r: ColorType)
        ensures
            r == ColorType::Rgba8888,
    {
        ColorType::Rgba8888
    }

    pub open spec fn spec_bytes_per_pixel(self) -> int {
        match self {
            ColorType::Alpha8 => 1,
            ColorType::Rgb565 => 2,
            ColorType::Rgba8888 => 4,
            ColorType::Bgra8888 => 4,
        }
    }

    pub fn bytes_per_pixel(&self) -> (r: usize)
        ensures
            r == self.spec_bytes_per_pixel(),
            1 <= r <= 4,
    {
        match self {
            ColorType::Alpha8 => 1,
            ColorType::Rgb565 => 2,
            ColorType::Rgba8888 => 4,
            ColorType::Bgra8888 => 4,
        }
    }
}

/// How the alpha channel relates to the color channels. Converting between
/// premultiplied and unpremultiplied pixels is color math owned by the
/// rendering engine, so pixel transfers here require the alpha types to
/// agree.
#[derive(Clone, Copy, Debug, PartialEq, Eq, Structural)]
pub enum AlphaType {
    Opaque,
    Premul,
    Unpremul,
}

/// The color space a surface is tagged with. A descriptor field: transfers
/// do not re-encode between spaces.
#[derive(Clone, Copy, Debug, PartialEq, Eq, Structural)]
pub enum ColorSpace {
    Unspecified,
    Srgb,
    SrgbLinear,
}

/// LCD striping orientation for device-independent font rendering; a style
/// hint carried by a surface, never interpreted here.
#[derive(Clone, Copy, Debug, PartialEq, Eq, Structural)]
pub enum PixelGeometry {
    Unknown,
    RgbHorizontal,
    BgrHorizontal,
    RgbVertical,
    BgrVertical,
}

/// Style properties a surface is constructed with.
#[derive(Clone, Copy, Debug, PartialEq, Eq, Structural)]
pub struct SurfaceProps {
    pub pixel_geometry: PixelGeometry,
    pub use_device_independent_fonts: bool,
}

impl SurfaceProps {
    pub fn new(pixel_geometry: PixelGeometry, use_device_independent_fonts: bool) -> (r:
        SurfaceProps)
        ensures
            r.pixel_geometry == pixel_geometry,
            r.use_device_independent_fonts == use_device_independent_fonts,
    {
        SurfaceProps { pixel_geometry, use_device_independent_fonts }
    }

    pub fn default_props() -> (r: SurfaceProps)
        ensures
            r.pixel_geometry == PixelGeometry::Unknown,
            !r.use_device_independent_fonts,
    {
        SurfaceProps { pixel_geometry: PixelGeometry::Unknown, use_device_independent_fonts: false }
    }
}

/// Whether a content-change notification keeps or may discard the current
/// pixels. Discarding is a GPU optimisation hint; it is not observable on
/// the pixel contents modelled here, and both modes advance the content
/// version.
#[derive(Clone, Copy, Debug, PartialEq, Eq, Structural)]
pub enum ContentChangeMode {
    Retain,
    Discard,
}

/// Width, height, color type, alpha type and color space of a pixel region.
#[derive(Clone, Copy, Debug, PartialEq, Eq, Structural)]
pub struct ImageInfo {
    pub width: i32,
    pub height: i32,
    pub color_type: ColorType,
    pub alpha_type: AlphaType,
    pub color_space: ColorSpace,
}

impl ImageInfo {
    pub fn new(size: ISize, color_type: ColorType, alpha_type: AlphaType, color_space: ColorSpace)
        -> (r: ImageInfo)
        ensures
            r == (ImageInfo {
                width: size.width,
                height: size.height,
                color_type,
                alpha_type,
                color_space,
            }),
    {
        ImageInfo { width: size.width, height: size.height, color_type, alpha_type, color_space }
    }

    /// The fixed premultiplied native-endian 32-bit format of the convenience
    /// construction path.
    pub fn new_n32_premul(size: ISize) -> (r: ImageInfo)
        ensures
            r == (ImageInfo {
                width: size.width,
                height: size.height,
                color_type: ColorType::Rgba8888,
                alpha_type: AlphaType::Premul,
                color_space: ColorSpace::Unspecified,
            }),
    {
        ImageInfo {
            width: size.width,
            height: size.height,
            color_type: ColorType::Rgba8888,
            alpha_type: AlphaType::Premul,
            color_space: ColorSpace::Unspecified,
        }
    }

    pub fn size(&self) -> (r: ISize)
        ensures
            r.width == self.width,
            r.height == self.height,
    {
        ISize { width: self.width, height: self.height }
    }

    /// Both dimensions are at least one: the shape every existing surface has.
    pub open spec fn spec_is_valid(self) -> bool {
        self.width > 0 && self.height > 0
    }

    pub fn is_valid(&self) -> (r: bool)
        ensures
            r == self.spec_is_valid(),
    {
        self.width > 0 && self.height > 0
    }

    pub open spec fn spec_bytes_per_pixel(self) -> int {
        self.color_type.spec_bytes_per_pixel()
    }

    pub fn bytes_per_pixel(&self) -> (r: usize)
        ensures
            r == self.spec_bytes_per_pixel(),
            1 <= r <= 4,
    {
        self.color_type.bytes_per_pixel()
    }

    /// The smallest row stride that holds one row of pixels. Zero when the
    /// width is not positive.
    pub open spec fn spec_min_row_bytes(self) -> int {
        if self.width <= 0 {
            0
        } else {
            self.width * self.spec_bytes_per_pixel()
        }
    }

    /// The smallest stride must fit the machine word; a caller that holds a
    /// real buffer of at least one row already knows that it does.
    pub fn min_row_bytes(&self) -> (r: usize)
        requires
            self.spec_min_row_bytes() <= usize::MAX,
        ensures
            r == self.spec_min_row_bytes(),
    {
        if self.width <= 0 {
            0
        } else {
            (self.width as usize) * self.bytes_per_pixel()
        }
    }

    /// The number of buffer bytes a region of this format needs under the
    /// given row stride: full rows for all but the last row, and one minimal
    /// row at the end. Zero when the height is not positive.
    pub open spec fn spec_byte_size(self, row_bytes: int) -> int {
        if self.height <= 0 {
            0
        } else {
            (self.height - 1) * row_bytes + self.spec_min_row_bytes()
        }
    }

    /// Computes [`ImageInfo::spec_byte_size`]; the result must fit the
    /// machine word, which every caller that validated its buffer against a
    /// real allocation already knows.
    pub fn compute_byte_size(&self, row_bytes: usize) -> (r: usize)
        requires
            self.spec_byte_size(row_bytes as int) <= usize::MAX,
        ensures
            r == self.spec_byte_size(row_bytes as int),
    {
        if self.height <= 0 {
            0
        } else {
            proof {
                assert((self.height - 1) * row_bytes >= 0) by (nonlinear_arith)
                    requires
                        self.height >= 1,
                        row_bytes >= 0,
                ;
            }
            ((self.height - 1) as usize) * row_bytes + self.min_row_bytes()
        }
    }

    /// The caller-supplied stride and buffer are large enough for a region of
    /// this format.
    pub open spec fn spec_valid_pixels(self, row_bytes: int, pixels: Seq<u8>) -> bool {
        row_bytes >= self.spec_min_row_bytes() && pixels.len() >= self.spec_byte_size(row_bytes)
    }

    pub fn valid_pixels(&self, row_bytes: usize, pixels: &Vec<u8>) -> (r: bool)
        ensures
            r == self.spec_valid_pixels(row_bytes as int, pixels@),
    {
        let bpp: usize = self.bytes_per_pixel();
        // row_bytes >= width * bpp, checked as row_bytes / bpp >= width so
        // that nothing overflows whatever the descriptor holds.
        if self.width > 0 {
            let wu: usize = self.width as usize;
            let q: usize = row_bytes / bpp;
            proof {
                vstd::arithmetic::div_mod::lemma_fundamental_div_mod(row_bytes as int, bpp as int);
                assert(row_bytes / bpp >= wu ==> row_bytes >= wu * bpp) by (nonlinear_arith)
                    requires
                        bpp > 0,
                        row_bytes == (row_bytes as int / bpp as int) * bpp + (row_bytes as int
                            % bpp as int),
                        row_bytes as int % bpp as int >= 0,
                        wu > 0,
                ;
                assert(row_bytes >= wu * bpp ==> row_bytes / bpp >= wu) by (nonlinear_arith)
                    requires
                        bpp > 0,
                        row_bytes == (row_bytes as int / bpp as int) * bpp + (row_bytes as int
                            % bpp as int),
                        bpp > row_bytes as int % bpp as int >= 0,
                        wu > 0,
                ;
            }
            if q < wu {
                return false;
            }
        }
        if self.height <= 0 {
            return true;
        }
        // The stride fits the word, so the minimal stride does too.
        proof {
            assert(self.spec_min_row_bytes() <= row_bytes);
        }
        if row_bytes == 0 {
            // A zero stride passed the check above only for a non-positive
            // width, whose rows need no bytes at all.
            proof {
                assert((self.height - 1) * (row_bytes as int) == 0) by (nonlinear_arith)
                    requires
                        row_bytes == 0,
                ;
            }
            return true;
        }
        let full_rows: usize = pixels.len() / row_bytes;
        let rest: usize = pixels.len() % row_bytes;
        // pixels.len() >= (height - 1) * row_bytes + min_row_bytes
        // <==> full_rows > height - 1, or full_rows == height - 1 and
        //      rest >= min_row_bytes
        let h1: usize = (self.height - 1) as usize;
        let ok: bool = full_rows > h1 || (full_rows == h1 && rest >= self.min_row_bytes());
        proof {
            vstd::arithmetic::div_mod::lemma_fundamental_div_mod(pixels@.len() as int,
                row_bytes as int);
            let q = pixels@.len() as int / row_bytes as int;
            let r0 = pixels@.len() as int % row_bytes as int;
            let need = self.spec_byte_size(row_bytes as int);
            assert(pixels@.len() == q * row_bytes + r0);
            if q > h1 {
                assert(q * row_bytes >= (h1 + 1) * row_bytes) by (nonlinear_arith)
                    requires
                        q > h1 >= 0,
                        row_bytes > 0,
                ;
                assert((h1 + 1) * row_bytes == h1 * row_bytes + row_bytes) by (nonlinear_arith);
                assert(pixels@.len() >= need);
            } else if q == h1 && r0 >= self.spec_min_row_bytes() {
                assert(pixels@.len() >= need);
            } else {
                // q < h1, or q == h1 and r0 < min_row_bytes: the buffer is
                // short of the computed size.
                if q < h1 {
                    assert(q * row_bytes <= (h1 - 1) * row_bytes) by (nonlinear_arith)
                        requires
                            0 <= q <= h1 - 1,
                            row_bytes > 0,
                    ;
                    assert((h1 - 1) * row_bytes + row_bytes == h1 * row_bytes) by (nonlinear_arith);
                    assert(pixels@.len() < h1 * row_bytes + self.spec_min_row_bytes());
                } else {
                    assert(pixels@.len() < need);
                }
            }
        }
        ok
    }

    /// A transfer can re-encode pixels between these formats: the alpha
    /// treatment must agree, and the color types must be byte-identical or
    /// the red/blue-swapped pair.
    pub open spec fn spec_can_convert(src: ImageInfo, dst: ImageInfo) -> bool {
        src.alpha_type == dst.alpha_type && (src.color_type == dst.color_type || (
        src.color_type == ColorType::Rgba8888 && dst.color_type == ColorType::Bgra8888) || (
        src.color_type == ColorType::Bgra8888 && dst.color_type == ColorType::Rgba8888))
    }

    pub fn can_convert(src: &ImageInfo, dst: &ImageInfo) -> (r: bool)
        ensures
            r == ImageInfo::spec_can_convert(*src, *dst),
    {
        src.alpha_type == dst.alpha_type && (src.color_type == dst.color_type || (
        src.color_type == ColorType::Rgba8888 && dst.color_type == ColorType::Bgra8888) || (
        src.color_type == ColorType::Bgra8888 && dst.color_type == ColorType::Rgba8888))
    }
}

/// Convertible formats have the same pixel width.
pub proof fn lemma_convert_same_bpp(src: ImageInfo, dst: ImageInfo)
    requires
        ImageInfo::spec_can_convert(src, dst),
    ensures
        src.spec_bytes_per_pixel() == dst.spec_bytes_per_pixel(),
{
}

/// One pixel's bytes re-encoded from `src_ct` to `dst_ct`: the identity for
/// equal color types, and the red/blue byte swap between the two 32-bit
/// orders. Meaningful only for convertible pairs.
pub open spec fn spec_convert_pixel(src_ct: ColorType, dst_ct: ColorType, p: Seq<u8>) -> Seq<u8> {
    if src_ct == dst_ct {
        p
    } else {
        seq![p[2], p[1], p[0], p[3]]
    }
}

/// Re-encoding is an involution: converting back restores the pixel.
pub proof fn lemma_convert_pixel_roundtrip(src: ImageInfo, dst: ImageInfo, p: Seq<u8>)
    requires
        ImageInfo::spec_can_convert(src, dst),
        p.len() == src.spec_bytes_per_pixel(),
    ensures
        spec_convert_pixel(dst.color_type, src.color_type,
            spec_convert_pixel(src.color_type, dst.color_type, p)) =~= p,
{
}

} // verus!
