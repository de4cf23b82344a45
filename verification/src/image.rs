//! Pixel containers around a surface: the immutable snapshot ([`Image`]),
//! the caller-described pixel view ([`Pixmap`]), and the caller-owned pixel
//! store ([`Bitmap`]).

use vstd::prelude::*;

use crate::image_info::ImageInfo;
use crate::pixels::zeroed_buffer;

verus! {

/// An immutable capture of pixel contents at a point in time. No method
/// mutates it, so a snapshot is unaffected by anything drawn to its source
/// surface afterwards.
#[derive(Debug)]
pub struct Image {
    info: ImageInfo,
    row_bytes: usize,
    pixels: Vec<u8>,
}

impl Image {
    /// Shape and format are valid and the bytes cover the region.
    pub closed spec fn wf(self) -> bool {
        &&& self.info.spec_is_valid()
        &&& self.info.spec_valid_pixels(self.row_bytes as int, self.pixels@)
    }

    pub closed spec fn spec_info(self) -> ImageInfo {
        self.info
    }

    pub closed spec fn spec_row_bytes(self) -> int {
        self.row_bytes as int
    }

    pub closed spec fn spec_pixels(self) -> Seq<u8> {
        self.pixels@
    }

    /// Used by the surface's snapshot operations.
    pub(crate) fn from_parts(info: ImageInfo, row_bytes: usize, pixels: Vec<u8>) -> (r: Image)
        requires
            info.spec_is_valid(),
            info.spec_valid_pixels(row_bytes as int, pixels@),
        ensures
            r.wf(),
            r.spec_info() == info,
            r.spec_row_bytes() == row_bytes,
            r.spec_pixels() == pixels@,
    {
        Image { info, row_bytes, pixels }
    }

    pub fn image_info(&self) -> (r: ImageInfo)
        ensures
            r == self.spec_info(),
    {
        self.info
    }

    pub fn width(&self) -> (r: i32)
        ensures
            r == self.spec_info().width,
    {
        self.info.width
    }

    pub fn height(&self) -> (r: i32)
        ensures
            r == self.spec_info().height,
    {
        self.info.height
    }

    pub fn row_bytes(&self) -> (r: usize)
        ensures
            r == self.spec_row_bytes(),
    {
        self.row_bytes
    }

    /// The captured bytes, row-major under [`Image::row_bytes`].
    pub fn pixels(&self) -> (r: &Vec<u8>)
        ensures
            r@ == self.spec_pixels(),
    {
        &self.pixels
    }
}

/// A caller-supplied pixel region: a format descriptor, a row stride, and
/// the bytes it describes.
#[derive(Debug)]
pub struct Pixmap {
    info: ImageInfo,
    row_bytes: usize,
    pixels: Vec<u8>,
}

impl Pixmap {
    pub closed spec fn wf(self) -> bool {
        &&& self.info.spec_is_valid()
        &&& self.info.spec_valid_pixels(self.row_bytes as int, self.pixels@)
    }

    pub closed spec fn spec_info(self) -> ImageInfo {
        self.info
    }

    pub closed spec fn spec_row_bytes(self) -> int {
        self.row_bytes as int
    }

    pub closed spec fn spec_pixels(self) -> Seq<u8> {
        self.pixels@
    }

    /// What well-formedness guarantees, spelled out for callers.
    pub proof fn lemma_wf(self)
        requires
            self.wf(),
        ensures
            self.spec_info().spec_is_valid(),
            self.spec_info().spec_valid_pixels(self.spec_row_bytes(), self.spec_pixels()),
            0 <= self.spec_row_bytes() <= usize::MAX,
    {
    }

    /// Used by the surface's pixel-export operations.
    pub(crate) fn from_parts(info: ImageInfo, row_bytes: usize, pixels: Vec<u8>) -> (r: Pixmap)
        requires
            info.spec_is_valid(),
            info.spec_valid_pixels(row_bytes as int, pixels@),
        ensures
            r.wf(),
            r.spec_info() == info,
            r.spec_row_bytes() == row_bytes,
            r.spec_pixels() == pixels@,
    {
        Pixmap { info, row_bytes, pixels }
    }

    /// Wraps caller bytes; yields nothing when the shape is degenerate or
    /// the stride or buffer is undersized.
    pub fn new(info: ImageInfo, row_bytes: usize, pixels: Vec<u8>) -> (r: Option<Pixmap>)
        ensures
            r is Some <==> info.spec_is_valid() && info.spec_valid_pixels(
                row_bytes as int,
                pixels@,
            ),
            r is Some ==> {
                &&& r->0.wf()
                &&& r->0.spec_info() == info
                &&& r->0.spec_row_bytes() == row_bytes
                &&& r->0.spec_pixels() == pixels@
            },
    {
        if info.is_valid() && info.valid_pixels(row_bytes, &pixels) {
            Some(Pixmap { info, row_bytes, pixels })
        } else {
            None
        }
    }

    pub fn image_info(&self) -> (r: ImageInfo)
        ensures
            r == self.spec_info(),
    {
        self.info
    }

    pub fn row_bytes(&self) -> (r: usize)
        ensures
            r == self.spec_row_bytes(),
    {
        self.row_bytes
    }

    pub fn pixels(&self) -> (r: &Vec<u8>)
        ensures
            r@ == self.spec_pixels(),
    {
        &self.pixels
    }

    /// The bytes, surrendered to the caller.
    pub fn into_pixels(self) -> (r: Vec<u8>)
        ensures
            r@ == self.spec_pixels(),
    {
        self.pixels
    }

    pub(crate) fn pixels_mut(&mut self) -> (r: &mut Vec<u8>)
        ensures
            r@ == old(self).spec_pixels(),
            final(self).spec_info() == old(self).spec_info(),
            final(self).spec_row_bytes() == old(self).spec_row_bytes(),
            final(self).spec_pixels() == final(r)@,
    {
        &mut self.pixels
    }
}

/// A pixel store that owns its memory, always at the minimal row stride,
/// zero-initialised on allocation.
#[derive(Debug)]
pub struct Bitmap {
    info: ImageInfo,
    row_bytes: usize,
    pixels: Vec<u8>,
}

impl Bitmap {
    pub closed spec fn wf(self) -> bool {
        &&& self.info.spec_is_valid()
        &&& self.row_bytes == self.info.spec_min_row_bytes()
        &&& self.info.spec_valid_pixels(self.row_bytes as int, self.pixels@)
    }

    pub closed spec fn spec_info(self) -> ImageInfo {
        self.info
    }

    pub closed spec fn spec_row_bytes(self) -> int {
        self.row_bytes as int
    }

    pub closed spec fn spec_pixels(self) -> Seq<u8> {
        self.pixels@
    }

    /// What well-formedness guarantees, spelled out for callers.
    pub proof fn lemma_wf(self)
        requires
            self.wf(),
        ensures
            self.spec_info().spec_is_valid(),
            self.spec_info().spec_valid_pixels(self.spec_row_bytes(), self.spec_pixels()),
            self.spec_row_bytes() == self.spec_info().spec_min_row_bytes(),
            0 <= self.spec_row_bytes() <= usize::MAX,
    {
    }

    /// Allocates zeroed storage for the region; yields nothing when the
    /// shape is degenerate or its byte size exceeds the machine word.
    pub fn new(info: ImageInfo) -> (r: Option<Bitmap>)
        ensures
            r is Some <==> info.spec_is_valid() && info.spec_byte_size(info.spec_min_row_bytes())
                <= usize::MAX,
            r is Some ==> {
                &&& r->0.wf()
                &&& r->0.spec_info() == info
                &&& r->0.spec_pixels() =~= Seq::new(
                    info.spec_byte_size(info.spec_min_row_bytes()) as nat,
                    |i: int| 0u8,
                )
            },
    {
        if !info.is_valid() {
            return None;
        }
        let bpp: usize = info.bytes_per_pixel();
        let wu: usize = info.width as usize;
        if wu > usize::MAX / bpp {
            proof {
                byte_size_overflow(info, wu as int, bpp as int);
            }
            return None;
        }
        proof {
            mul_div_bound(wu as int, bpp as int, usize::MAX as int);
        }
        let min_rb: usize = wu * bpp;
        let h1: usize = (info.height - 1) as usize;
        if min_rb > 0 && h1 > (usize::MAX - min_rb) / min_rb {
            proof {
                rows_overflow(info, h1 as int, min_rb as int);
            }
            return None;
        }
        proof {
            rows_fit(info, h1 as int, min_rb as int);
        }
        let size: usize = h1 * min_rb + min_rb;
        let pixels = zeroed_buffer(size);
        Some(Bitmap { info, row_bytes: min_rb, pixels })
    }

    pub fn image_info(&self) -> (r: ImageInfo)
        ensures
            r == self.spec_info(),
    {
        self.info
    }

    pub fn row_bytes(&self) -> (r: usize)
        ensures
            r == self.spec_row_bytes(),
    {
        self.row_bytes
    }

    pub fn pixels(&self) -> (r: &Vec<u8>)
        ensures
            r@ == self.spec_pixels(),
    {
        &self.pixels
    }

    pub(crate) fn pixels_mut(&mut self) -> (r: &mut Vec<u8>)
        ensures
            r@ == old(self).spec_pixels(),
            final(self).spec_info() == old(self).spec_info(),
            final(self).spec_row_bytes() == old(self).spec_row_bytes(),
            final(self).spec_pixels() == final(r)@,
    {
        &mut self.pixels
    }
}

/// With `width * bytes_per_pixel` past the machine word, so is the region's
/// byte size.
proof fn byte_size_overflow(info: ImageInfo, wu: int, bpp: int)
    requires
        info.spec_is_valid(),
        wu == info.width,
        bpp == info.spec_bytes_per_pixel(),
        wu > usize::MAX as int / bpp,
    ensures
        info.spec_byte_size(info.spec_min_row_bytes()) > usize::MAX,
{
    let m = usize::MAX as int;
    vstd::arithmetic::div_mod::lemma_fundamental_div_mod(m, bpp);
    assert(wu * bpp > m) by (nonlinear_arith)
        requires
            wu >= m / bpp + 1,
            bpp > 0,
            m == bpp * (m / bpp) + m % bpp,
            0 <= m % bpp < bpp,
    ;
    let rb = info.spec_min_row_bytes();
    assert((info.height - 1) * rb >= 0) by (nonlinear_arith)
        requires
            info.height >= 1,
            rb >= 0,
    ;
}

/// With `width <= MAX / bpp`, the product fits.
proof fn mul_div_bound(wu: int, bpp: int, m: int)
    requires
        0 <= wu <= m / bpp,
        0 < bpp,
        0 <= m,
    ensures
        wu * bpp <= m,
{
    vstd::arithmetic::div_mod::lemma_fundamental_div_mod(m, bpp);
    assert(wu * bpp <= m) by (nonlinear_arith)
        requires
            wu <= m / bpp,
            bpp > 0,
            m == bpp * (m / bpp) + m % bpp,
            0 <= m % bpp,
    ;
}

/// Too many rows for the machine word.
proof fn rows_overflow(info: ImageInfo, h1: int, min_rb: int)
    requires
        info.spec_is_valid(),
        h1 == info.height - 1,
        min_rb == info.spec_min_row_bytes(),
        min_rb > 0,
        h1 > (usize::MAX as int - min_rb) / min_rb,
    ensures
        info.spec_byte_size(min_rb) > usize::MAX,
{
    let m = usize::MAX as int - min_rb;
    vstd::arithmetic::div_mod::lemma_fundamental_div_mod(m, min_rb);
    assert(h1 * min_rb > m) by (nonlinear_arith)
        requires
            h1 >= m / min_rb + 1,
            min_rb > 0,
            m == min_rb * (m / min_rb) + m % min_rb,
            0 <= m % min_rb < min_rb,
    ;
}

/// Row count within bounds: the byte size fits the machine word.
proof fn rows_fit(info: ImageInfo, h1: int, min_rb: int)
    requires
        info.spec_is_valid(),
        h1 == info.height - 1,
        min_rb == info.spec_min_row_bytes(),
        min_rb == 0 || h1 <= (usize::MAX as int - min_rb) / min_rb,
    ensures
        info.spec_byte_size(min_rb) <= usize::MAX,
        h1 * min_rb + min_rb <= usize::MAX,
{
    if min_rb == 0 {
        assert(h1 * 0 == 0) by (nonlinear_arith);
    } else {
        let m = usize::MAX as int - min_rb;
        vstd::arithmetic::div_mod::lemma_fundamental_div_mod(m, min_rb);
        assert(h1 * min_rb <= m) by (nonlinear_arith)
            requires
                h1 <= m / min_rb,
                min_rb > 0,
                m == min_rb * (m / min_rb) + m % min_rb,
                0 <= m % min_rb,
        ;
    }
}

} // verus!
