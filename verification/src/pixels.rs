//! The pixel-transfer core: a mathematical description of what a clipped,
//! format-converting pixel copy produces, and one verified copy routine that
//! every transfer (read, write, snapshot) goes through.
//!
//! A buffer of pixels is a flat byte sequence: pixel `(x, y)` occupies the
//! `bytes_per_pixel` bytes starting at `y * row_bytes + x * bytes_per_pixel`.
//! A copy places the source region with its origin at `(off_x, off_y)` of the
//! destination, touches exactly the pixels covered by both regions, and
//! leaves every other byte — row padding included — unchanged.

use vstd::arithmetic::div_mod::{lemma_fundamental_div_mod, lemma_fundamental_div_mod_converse};
use vstd::arithmetic::mul::lemma_mul_inequality;
use vstd::prelude::*;

use crate::image_info::{lemma_convert_same_bpp, spec_convert_pixel, ColorType, ImageInfo};

verus! {

/// The bytes of pixel `(x, y)` in `data` under the given stride and pixel
/// width.
pub open spec fn spec_pixel_bytes(data: Seq<u8>, row_bytes: int, bpp: int, x: int, y: int) -> Seq<
    u8,
> {
    data.subrange(y * row_bytes + x * bpp, y * row_bytes + x * bpp + bpp)
}

/// Destination pixel `(x, y)` is covered by the copy: it lies in the
/// destination region, and the source pixel it maps to lies in the source
/// region.
pub open spec fn spec_in_copy_region(
    dst_info: ImageInfo,
    src_info: ImageInfo,
    off_x: int,
    off_y: int,
    x: int,
    y: int,
) -> bool {
    &&& 0 <= x < dst_info.width
    &&& 0 <= y < dst_info.height
    &&& 0 <= x - off_x < src_info.width
    &&& 0 <= y - off_y < src_info.height
}

/// The copy covers at least one destination pixel.
pub open spec fn spec_copy_region_nonempty(
    dst_info: ImageInfo,
    src_info: ImageInfo,
    off_x: int,
    off_y: int,
) -> bool {
    &&& (if off_x >= 0 {
        off_x
    } else {
        0
    }) < (if dst_info.width <= off_x + src_info.width {
        dst_info.width as int
    } else {
        off_x + src_info.width
    })
    &&& (if off_y >= 0 {
        off_y
    } else {
        0
    }) < (if dst_info.height <= off_y + src_info.height {
        dst_info.height as int
    } else {
        off_y + src_info.height
    })
}

/// Byte `i` of the destination after the copy: a re-encoded source byte when
/// `i` addresses a covered pixel, the old byte otherwise.
pub open spec fn spec_copied_byte(
    dst: Seq<u8>,
    dst_info: ImageInfo,
    dst_row_bytes: int,
    src: Seq<u8>,
    src_info: ImageInfo,
    src_row_bytes: int,
    off_x: int,
    off_y: int,
    i: int,
) -> u8 {
    let bpp = dst_info.spec_bytes_per_pixel();
    let y = i / dst_row_bytes;
    let rem = i % dst_row_bytes;
    let x = rem / bpp;
    let k = rem % bpp;
    if spec_in_copy_region(dst_info, src_info, off_x, off_y, x, y) {
        spec_convert_pixel(
            src_info.color_type,
            dst_info.color_type,
            spec_pixel_bytes(
                src,
                src_row_bytes,
                src_info.spec_bytes_per_pixel(),
                x - off_x,
                y - off_y,
            ),
        )[k]
    } else {
        dst[i]
    }
}

/// The whole destination after the copy.
pub open spec fn spec_copy(
    dst: Seq<u8>,
    dst_info: ImageInfo,
    dst_row_bytes: int,
    src: Seq<u8>,
    src_info: ImageInfo,
    src_row_bytes: int,
    off_x: int,
    off_y: int,
) -> Seq<u8> {
    Seq::new(
        dst.len(),
        |i: int|
            spec_copied_byte(
                dst,
                dst_info,
                dst_row_bytes,
                src,
                src_info,
                src_row_bytes,
                off_x,
                off_y,
                i,
            ),
    )
}

/// An empty copy region leaves the destination as it was.
pub proof fn lemma_copy_empty(
    dst: Seq<u8>,
    dst_info: ImageInfo,
    dst_row_bytes: int,
    src: Seq<u8>,
    src_info: ImageInfo,
    src_row_bytes: int,
    off_x: int,
    off_y: int,
)
    requires
        !spec_copy_region_nonempty(dst_info, src_info, off_x, off_y),
    ensures
        spec_copy(dst, dst_info, dst_row_bytes, src, src_info, src_row_bytes, off_x, off_y)
            =~= dst,
{
    let result = spec_copy(dst, dst_info, dst_row_bytes, src, src_info, src_row_bytes, off_x,
        off_y);
    assert forall|i: int| 0 <= i < dst.len() implies result[i] == dst[i] by {
        let bpp = dst_info.spec_bytes_per_pixel();
        let y = i / dst_row_bytes;
        let x = (i % dst_row_bytes) / bpp;
        assert(!spec_in_copy_region(dst_info, src_info, off_x, off_y, x, y));
    }
}

/// Recovering pixel coordinates from a byte index: the index of byte `k` of
/// pixel `(x, y)` decodes back to `(x, y, k)` under division by the stride
/// and the pixel width.
proof fn lemma_decode(row_bytes: int, bpp: int, w: int, y: int, x: int, k: int)
    requires
        0 < bpp,
        0 <= x < w,
        0 <= k < bpp,
        0 <= y,
        w * bpp <= row_bytes,
    ensures
        (y * row_bytes + x * bpp + k) / row_bytes == y,
        (y * row_bytes + x * bpp + k) % row_bytes == x * bpp + k,
        (x * bpp + k) / bpp == x,
        (x * bpp + k) % bpp == k,
{
    let rem = x * bpp + k;
    lemma_mul_inequality(x + 1, w, bpp);
    vstd::arithmetic::mul::lemma_mul_is_distributive_add_other_way(bpp, x, 1);
    vstd::arithmetic::mul::lemma_mul_nonnegative(x, bpp);
    assert(0 <= rem < row_bytes);
    lemma_fundamental_div_mod_converse(y * row_bytes + rem, row_bytes, y, rem);
    lemma_fundamental_div_mod_converse(rem, bpp, x, k);
}

/// The byte address of a pixel stays within the region's computed byte size.
proof fn lemma_base_in_bounds(row_bytes: int, bpp: int, w: int, h: int, y: int, x: int)
    requires
        0 < bpp,
        0 <= x < w,
        0 <= y < h,
        w * bpp <= row_bytes,
    ensures
        0 <= y * row_bytes,
        0 <= x * bpp,
        y * row_bytes + x * bpp + bpp <= (h - 1) * row_bytes + w * bpp,
{
    lemma_mul_inequality(y, h - 1, row_bytes);
    lemma_mul_inequality(x + 1, w, bpp);
    vstd::arithmetic::mul::lemma_mul_is_distributive_add_other_way(bpp, x, 1);
    vstd::arithmetic::mul::lemma_mul_nonnegative(y, row_bytes);
    vstd::arithmetic::mul::lemma_mul_nonnegative(x, bpp);
}

/// Pixels strictly before `(y_cur, x_cur, k_cur)` in row-major byte order.
spec fn lex_before(y: int, x: int, k: int, y_cur: int, x_cur: int, k_cur: int) -> bool {
    y < y_cur || (y == y_cur && (x < x_cur || (x == x_cur && k < k_cur)))
}

/// The destination mid-copy: covered bytes strictly before `(y_cur, x_cur,
/// k_cur)` already re-encoded, everything else still old.
spec fn spec_partial(
    dst: Seq<u8>,
    dst_info: ImageInfo,
    dst_row_bytes: int,
    src: Seq<u8>,
    src_info: ImageInfo,
    src_row_bytes: int,
    off_x: int,
    off_y: int,
    y_cur: int,
    x_cur: int,
    k_cur: int,
) -> Seq<u8> {
    Seq::new(
        dst.len(),
        |i: int|
            {
                let bpp = dst_info.spec_bytes_per_pixel();
                let y = i / dst_row_bytes;
                let rem = i % dst_row_bytes;
                let x = rem / bpp;
                let k = rem % bpp;
                if spec_in_copy_region(dst_info, src_info, off_x, off_y, x, y) && lex_before(
                    y,
                    x,
                    k,
                    y_cur,
                    x_cur,
                    k_cur,
                ) {
                    spec_copied_byte(
                        dst,
                        dst_info,
                        dst_row_bytes,
                        src,
                        src_info,
                        src_row_bytes,
                        off_x,
                        off_y,
                        i,
                    )
                } else {
                    dst[i]
                }
            },
    )
}

/// Before the first covered row, nothing is re-encoded yet.
proof fn lemma_partial_init(
    dst: Seq<u8>,
    dst_info: ImageInfo,
    dst_row_bytes: int,
    src: Seq<u8>,
    src_info: ImageInfo,
    src_row_bytes: int,
    off_x: int,
    off_y: int,
    y0: int,
    x0: int,
)
    requires
        y0 == (if off_y >= 0 {
            off_y
        } else {
            0
        }),
        x0 == (if off_x >= 0 {
            off_x
        } else {
            0
        }),
    ensures
        spec_partial(dst, dst_info, dst_row_bytes, src, src_info, src_row_bytes, off_x, off_y, y0,
            x0, 0) =~= dst,
{
}

/// Past the last covered row, everything covered is re-encoded.
proof fn lemma_partial_done(
    dst: Seq<u8>,
    dst_info: ImageInfo,
    dst_row_bytes: int,
    src: Seq<u8>,
    src_info: ImageInfo,
    src_row_bytes: int,
    off_x: int,
    off_y: int,
    y1: int,
    x0: int,
)
    requires
        y1 == (if dst_info.height <= off_y + src_info.height {
            dst_info.height as int
        } else {
            off_y + src_info.height
        }),
    ensures
        spec_partial(dst, dst_info, dst_row_bytes, src, src_info, src_row_bytes, off_x, off_y, y1,
            x0, 0) =~= spec_copy(dst, dst_info, dst_row_bytes, src, src_info, src_row_bytes,
            off_x, off_y),
{
}

/// Finishing the last byte of a pixel is reaching the next pixel.
proof fn lemma_partial_pixel_done(
    dst: Seq<u8>,
    dst_info: ImageInfo,
    dst_row_bytes: int,
    src: Seq<u8>,
    src_info: ImageInfo,
    src_row_bytes: int,
    off_x: int,
    off_y: int,
    y: int,
    x: int,
)
    ensures
        spec_partial(dst, dst_info, dst_row_bytes, src, src_info, src_row_bytes, off_x, off_y, y,
            x, dst_info.spec_bytes_per_pixel()) =~= spec_partial(dst, dst_info, dst_row_bytes,
            src, src_info, src_row_bytes, off_x, off_y, y, x + 1, 0),
{
}

/// Finishing the last covered pixel of a row is reaching the next row.
proof fn lemma_partial_row_done(
    dst: Seq<u8>,
    dst_info: ImageInfo,
    dst_row_bytes: int,
    src: Seq<u8>,
    src_info: ImageInfo,
    src_row_bytes: int,
    off_x: int,
    off_y: int,
    y: int,
    x0: int,
    x1: int,
)
    requires
        x0 == (if off_x >= 0 {
            off_x
        } else {
            0
        }),
        x1 == (if dst_info.width <= off_x + src_info.width {
            dst_info.width as int
        } else {
            off_x + src_info.width
        }),
    ensures
        spec_partial(dst, dst_info, dst_row_bytes, src, src_info, src_row_bytes, off_x, off_y, y,
            x1, 0) =~= spec_partial(dst, dst_info, dst_row_bytes, src, src_info, src_row_bytes,
            off_x, off_y, y + 1, x0, 0),
{
}

/// One byte of a re-encoded pixel, by index: the identity for equal color
/// types, the red/blue swap otherwise.
proof fn lemma_convert_byte_index(src_ct: ColorType, dst_ct: ColorType, p: Seq<u8>, k: int, sk: int)
    requires
        src_ct == dst_ct || (src_ct == ColorType::Rgba8888 && dst_ct == ColorType::Bgra8888) || (
        src_ct == ColorType::Bgra8888 && dst_ct == ColorType::Rgba8888),
        p.len() == src_ct.spec_bytes_per_pixel(),
        0 <= k < dst_ct.spec_bytes_per_pixel(),
        sk == (if src_ct == dst_ct {
            k
        } else if k == 0 {
            2
        } else if k == 2 {
            0
        } else {
            k
        }),
    ensures
        0 <= sk < src_ct.spec_bytes_per_pixel(),
        spec_convert_pixel(src_ct, dst_ct, p)[k] == p[sk],
{
    if src_ct != dst_ct {
        let q = spec_convert_pixel(src_ct, dst_ct, p);
        assert(q =~= seq![p[2], p[1], p[0], p[3]]);
        if k == 0 {
            assert(q[0] == p[2]);
        } else if k == 1 {
            assert(q[1] == p[1]);
        } else if k == 2 {
            assert(q[2] == p[0]);
        } else {
            assert(q[3] == p[3]);
        }
    }
}

/// Writing the re-encoded byte of covered pixel `(x, y)` advances the
/// partially-copied description by one byte.
proof fn lemma_partial_step(
    dst: Seq<u8>,
    dst_info: ImageInfo,
    dst_row_bytes: int,
    src: Seq<u8>,
    src_info: ImageInfo,
    src_row_bytes: int,
    off_x: int,
    off_y: int,
    y: int,
    x: int,
    k: int,
    v: u8,
)
    requires
        dst_info.spec_is_valid(),
        src_info.spec_is_valid(),
        ImageInfo::spec_can_convert(src_info, dst_info),
        dst_info.spec_min_row_bytes() <= dst_row_bytes,
        dst_info.spec_byte_size(dst_row_bytes) <= dst.len(),
        spec_in_copy_region(dst_info, src_info, off_x, off_y, x, y),
        0 <= k < dst_info.spec_bytes_per_pixel(),
        v == spec_convert_pixel(
            src_info.color_type,
            dst_info.color_type,
            spec_pixel_bytes(
                src,
                src_row_bytes,
                src_info.spec_bytes_per_pixel(),
                x - off_x,
                y - off_y,
            ),
        )[k],
    ensures
        spec_partial(dst, dst_info, dst_row_bytes, src, src_info, src_row_bytes, off_x, off_y, y,
            x, k).update(y * dst_row_bytes + x * dst_info.spec_bytes_per_pixel() + k, v)
            =~= spec_partial(dst, dst_info, dst_row_bytes, src, src_info, src_row_bytes, off_x,
            off_y, y, x, k + 1),
{
    let bpp = dst_info.spec_bytes_per_pixel();
    let idx = y * dst_row_bytes + x * bpp + k;
    lemma_decode(dst_row_bytes, bpp, dst_info.width as int, y, x, k);
    lemma_base_in_bounds(dst_row_bytes, bpp, dst_info.width as int, dst_info.height as int, y, x);
    assert(0 <= idx < dst.len());
    let a = spec_partial(dst, dst_info, dst_row_bytes, src, src_info, src_row_bytes, off_x, off_y,
        y, x, k).update(idx, v);
    let b = spec_partial(dst, dst_info, dst_row_bytes, src, src_info, src_row_bytes, off_x, off_y,
        y, x, k + 1);
    assert forall|i: int| 0 <= i < dst.len() implies a[i] == b[i] by {
        lemma_fundamental_div_mod(i, dst_row_bytes);
        lemma_fundamental_div_mod(i % dst_row_bytes, bpp);
        let yi = i / dst_row_bytes;
        let remi = i % dst_row_bytes;
        let xi = remi / bpp;
        let ki = remi % bpp;
        assert(i == yi * dst_row_bytes + remi);
        assert(remi == xi * bpp + ki);
        if i == idx {
            assert(yi == y && xi == x && ki == k);
            assert(b[i] == v);
            assert(a[i] == v);
        } else {
            assert(!(yi == y && xi == x && ki == k));
            assert(a[i] == b[i]);
        }
    }
}

/// A product bounded through division: `a <= m / b` puts `a * b` within `m`.
pub(crate) proof fn lemma_mul_within(a: int, b: int, m: int)
    requires
        0 <= a <= m / b,
        0 < b,
        0 <= m,
    ensures
        a * b <= m,
{
    lemma_fundamental_div_mod(m, b);
    assert(a * b <= m) by (nonlinear_arith)
        requires
            a <= m / b,
            b > 0,
            m == b * (m / b) + m % b,
            0 <= m % b,
    ;
}

/// A product past the division bound exceeds it: `a > m / b` puts `a * b`
/// beyond `m`.
pub(crate) proof fn lemma_mul_beyond(a: int, b: int, m: int)
    requires
        a > m / b,
        0 < b,
        0 <= m,
    ensures
        a * b > m,
{
    lemma_fundamental_div_mod(m, b);
    assert(a * b > m) by (nonlinear_arith)
        requires
            a >= m / b + 1,
            b > 0,
            m == b * (m / b) + m % b,
            0 <= m % b < b,
    ;
}

/// What the copy leaves at a covered destination pixel: exactly the source
/// pixel it maps to, re-encoded.
pub proof fn lemma_copy_covered_pixel(
    dst: Seq<u8>,
    dst_info: ImageInfo,
    dst_row_bytes: int,
    src: Seq<u8>,
    src_info: ImageInfo,
    src_row_bytes: int,
    off_x: int,
    off_y: int,
    x: int,
    y: int,
)
    requires
        dst_info.spec_is_valid(),
        src_info.spec_is_valid(),
        ImageInfo::spec_can_convert(src_info, dst_info),
        dst_info.spec_valid_pixels(dst_row_bytes, dst),
        src_info.spec_valid_pixels(src_row_bytes, src),
        spec_in_copy_region(dst_info, src_info, off_x, off_y, x, y),
    ensures
        spec_pixel_bytes(
            spec_copy(dst, dst_info, dst_row_bytes, src, src_info, src_row_bytes, off_x, off_y),
            dst_row_bytes,
            dst_info.spec_bytes_per_pixel(),
            x,
            y,
        ) == spec_convert_pixel(
            src_info.color_type,
            dst_info.color_type,
            spec_pixel_bytes(
                src,
                src_row_bytes,
                src_info.spec_bytes_per_pixel(),
                x - off_x,
                y - off_y,
            ),
        ),
{
    lemma_convert_same_bpp(src_info, dst_info);
    let bpp = dst_info.spec_bytes_per_pixel();
    lemma_base_in_bounds(dst_row_bytes, bpp, dst_info.width as int, dst_info.height as int, y, x);
    lemma_base_in_bounds(
        src_row_bytes,
        bpp,
        src_info.width as int,
        src_info.height as int,
        y - off_y,
        x - off_x,
    );
    let copied = spec_copy(dst, dst_info, dst_row_bytes, src, src_info, src_row_bytes, off_x,
        off_y);
    let got = spec_pixel_bytes(copied, dst_row_bytes, bpp, x, y);
    let p = spec_pixel_bytes(src, src_row_bytes, bpp, x - off_x, y - off_y);
    let want = spec_convert_pixel(src_info.color_type, dst_info.color_type, p);
    assert forall|k: int| 0 <= k < bpp implies got[k] == want[k] by {
        lemma_decode(dst_row_bytes, bpp, dst_info.width as int, y, x, k);
    }
    assert(got =~= want);
}

/// A zero-initialised pixel buffer.
pub fn zeroed_buffer(n: usize) -> (v: Vec<u8>)
    ensures
        v@ =~= Seq::new(n as nat, |i: int| 0u8),
{
    let mut v: Vec<u8> = Vec::new();
    let mut i: usize = 0;
    while i < n
        invariant
            0 <= i <= n,
            v@ =~= Seq::new(i as nat, |j: int| 0u8),
        decreases n - i,
    {
        v.push(0);
        i += 1;
        proof {
            assert(v@ =~= Seq::new(i as nat, |j: int| 0u8));
        }
    }
    v
}

/// A byte-for-byte copy of a pixel buffer.
pub fn duplicate_buffer(src: &Vec<u8>) -> (v: Vec<u8>)
    ensures
        v@ == src@,
{
    let n: usize = src.len();
    let mut v: Vec<u8> = Vec::new();
    let mut i: usize = 0;
    while i < n
        invariant
            0 <= i <= n,
            n == src@.len(),
            v@ =~= src@.subrange(0, i as int),
        decreases n - i,
    {
        v.push(src[i]);
        i += 1;
        proof {
            assert(v@ =~= src@.subrange(0, i as int));
        }
    }
    proof {
        assert(v@ =~= src@);
    }
    v
}

/// Writing a pattern into a surface at the origin and reading the same
/// region back returns the pattern: pixel for pixel, bit for bit when the
/// two formats agree, and through the re-encoding involution otherwise.
pub proof fn lemma_write_read_roundtrip(
    surf: Seq<u8>,
    surf_info: ImageInfo,
    surf_rb: int,
    pat: Seq<u8>,
    pat_info: ImageInfo,
    pat_rb: int,
    dst: Seq<u8>,
)
    requires
        surf_info.spec_is_valid(),
        pat_info.spec_is_valid(),
        ImageInfo::spec_can_convert(pat_info, surf_info),
        surf_info.spec_valid_pixels(surf_rb, surf),
        pat_info.spec_valid_pixels(pat_rb, pat),
        pat_info.spec_valid_pixels(pat_rb, dst),
        pat_info.width <= surf_info.width,
        pat_info.height <= surf_info.height,
    ensures
        forall|x: int, y: int|
            0 <= x < pat_info.width && 0 <= y < pat_info.height ==> spec_pixel_bytes(
                spec_copy(
                    dst,
                    pat_info,
                    pat_rb,
                    spec_copy(surf, surf_info, surf_rb, pat, pat_info, pat_rb, 0, 0),
                    surf_info,
                    surf_rb,
                    0,
                    0,
                ),
                pat_rb,
                pat_info.spec_bytes_per_pixel(),
                x,
                y,
            ) == spec_pixel_bytes(pat, pat_rb, pat_info.spec_bytes_per_pixel(), x, y),
{
    let bpp = pat_info.spec_bytes_per_pixel();
    lemma_convert_same_bpp(pat_info, surf_info);
    let written = spec_copy(surf, surf_info, surf_rb, pat, pat_info, pat_rb, 0, 0);
    let readback = spec_copy(dst, pat_info, pat_rb, written, surf_info, surf_rb, 0, 0);
    assert forall|x: int, y: int| 0 <= x < pat_info.width && 0 <= y < pat_info.height implies
        spec_pixel_bytes(readback, pat_rb, bpp, x, y) =~= spec_pixel_bytes(pat, pat_rb, bpp, x, y)
        by {
        lemma_base_in_bounds(pat_rb, bpp, pat_info.width as int, pat_info.height as int, y, x);
        lemma_base_in_bounds(surf_rb, bpp, surf_info.width as int, surf_info.height as int, y, x);
        let pp = spec_pixel_bytes(pat, pat_rb, bpp, x, y);
        let wp = spec_pixel_bytes(written, surf_rb, bpp, x, y);
        let rp = spec_pixel_bytes(readback, pat_rb, bpp, x, y);
        // Each byte the write produced is a re-encoded pattern byte.
        assert forall|j: int| 0 <= j < bpp implies wp[j] == spec_convert_pixel(
            pat_info.color_type,
            surf_info.color_type,
            pp,
        )[j] by {
            lemma_decode(surf_rb, bpp, surf_info.width as int, y, x, j);
            assert(spec_in_copy_region(surf_info, pat_info, 0, 0, x, y));
        }
        assert(wp =~= spec_convert_pixel(pat_info.color_type, surf_info.color_type, pp));
        crate::image_info::lemma_convert_pixel_roundtrip(pat_info, surf_info, pp);
        // Each byte read back is that pixel re-encoded the other way.
        assert forall|k: int| 0 <= k < bpp implies rp[k] == pp[k] by {
            lemma_decode(pat_rb, bpp, pat_info.width as int, y, x, k);
            assert(spec_in_copy_region(pat_info, surf_info, 0, 0, x, y));
            assert(rp[k] == spec_convert_pixel(surf_info.color_type, pat_info.color_type, wp)[k]);
        }
    }
}

/// Copies the intersection of the source region (placed at `(off_x, off_y)`)
/// with the destination region, re-encoding each pixel, and leaves every
/// other destination byte unchanged.
#[verifier::loop_isolation(false)]
pub fn copy_pixels(
    dst: &mut Vec<u8>,
    dst_info: &ImageInfo,
    dst_row_bytes: usize,
    src: &Vec<u8>,
    src_info: &ImageInfo,
    src_row_bytes: usize,
    off_x: i64,
    off_y: i64,
)
    requires
        dst_info.spec_is_valid(),
        src_info.spec_is_valid(),
        dst_info.spec_valid_pixels(dst_row_bytes as int, old(dst)@),
        src_info.spec_valid_pixels(src_row_bytes as int, src@),
        ImageInfo::spec_can_convert(*src_info, *dst_info),
        -0x1_0000_0000 <= off_x <= 0x1_0000_0000,
        -0x1_0000_0000 <= off_y <= 0x1_0000_0000,
    ensures
        final(dst)@ == spec_copy(
            old(dst)@,
            *dst_info,
            dst_row_bytes as int,
            src@,
            *src_info,
            src_row_bytes as int,
            off_x as int,
            off_y as int,
        ),
{
    let ghost g_dst = old(dst)@;
    let ghost result = spec_copy(
        g_dst,
        *dst_info,
        dst_row_bytes as int,
        src@,
        *src_info,
        src_row_bytes as int,
        off_x as int,
        off_y as int,
    );
    // Read the lengths once: they witness that both byte sizes fit the
    // machine word, which bounds every index computed below.
    let dst_len: usize = dst.len();
    let src_len: usize = src.len();
    let dst_w: i64 = dst_info.width as i64;
    let dst_h: i64 = dst_info.height as i64;
    let src_w: i64 = src_info.width as i64;
    let src_h: i64 = src_info.height as i64;
    let x0: i64 = if off_x >= 0 {
        off_x
    } else {
        0
    };
    let x1: i64 = if dst_w <= off_x + src_w {
        dst_w
    } else {
        off_x + src_w
    };
    let y0: i64 = if off_y >= 0 {
        off_y
    } else {
        0
    };
    let y1: i64 = if dst_h <= off_y + src_h {
        dst_h
    } else {
        off_y + src_h
    };
    let bpp: usize = dst_info.bytes_per_pixel();
    proof {
        lemma_convert_same_bpp(*src_info, *dst_info);
    }
    if x0 >= x1 || y0 >= y1 {
        proof {
            lemma_copy_empty(
                g_dst,
                *dst_info,
                dst_row_bytes as int,
                src@,
                *src_info,
                src_row_bytes as int,
                off_x as int,
                off_y as int,
            );
        }
        return ;
    }
    let same_ct: bool = src_info.color_type == dst_info.color_type;
    proof {
        lemma_partial_init(
            g_dst,
            *dst_info,
            dst_row_bytes as int,
            src@,
            *src_info,
            src_row_bytes as int,
            off_x as int,
            off_y as int,
            y0 as int,
            x0 as int,
        );
    }
    let mut y: i64 = y0;
    while y < y1
        invariant
            y0 <= y <= y1,
            dst@ == spec_partial(
                g_dst,
                *dst_info,
                dst_row_bytes as int,
                src@,
                *src_info,
                src_row_bytes as int,
                off_x as int,
                off_y as int,
                y as int,
                x0 as int,
                0,
            ),
        decreases y1 - y,
    {
        let mut x: i64 = x0;
        while x < x1
            invariant
                x0 <= x <= x1,
                y0 <= y < y1,
                dst@ == spec_partial(
                    g_dst,
                    *dst_info,
                    dst_row_bytes as int,
                    src@,
                    *src_info,
                    src_row_bytes as int,
                    off_x as int,
                    off_y as int,
                    y as int,
                    x as int,
                    0,
                ),
            decreases x1 - x,
        {
            let sx: usize = (x - off_x) as usize;
            let sy: usize = (y - off_y) as usize;
            let xu: usize = x as usize;
            let yu: usize = y as usize;
            proof {
                // The bases below stay within each buffer.
                lemma_base_in_bounds(
                    dst_row_bytes as int,
                    bpp as int,
                    dst_info.width as int,
                    dst_info.height as int,
                    yu as int,
                    xu as int,
                );
                lemma_base_in_bounds(
                    src_row_bytes as int,
                    bpp as int,
                    src_info.width as int,
                    src_info.height as int,
                    sy as int,
                    sx as int,
                );
            }
            let dst_base: usize = yu * dst_row_bytes + xu * bpp;
            let src_base: usize = sy * src_row_bytes + sx * bpp;
            let mut k: usize = 0;
            while k < bpp
                invariant
                    0 <= k <= bpp,
                    dst_base == y * dst_row_bytes + x * bpp,
                    src_base == sy * src_row_bytes + sx * bpp,
                    sx == x - off_x,
                    sy == y - off_y,
                    x0 <= x < x1,
                    y0 <= y < y1,
                    dst@ == spec_partial(
                        g_dst,
                        *dst_info,
                        dst_row_bytes as int,
                        src@,
                        *src_info,
                        src_row_bytes as int,
                        off_x as int,
                        off_y as int,
                        y as int,
                        x as int,
                        k as int,
                    ),
                decreases bpp - k,
            {
                let sk: usize = if same_ct {
                    k
                } else if k == 0 {
                    2
                } else if k == 2 {
                    0
                } else {
                    k
                };
                proof {
                    lemma_convert_byte_index(
                        src_info.color_type,
                        dst_info.color_type,
                        spec_pixel_bytes(
                            src@,
                            src_row_bytes as int,
                            bpp as int,
                            sx as int,
                            sy as int,
                        ),
                        k as int,
                        sk as int,
                    );
                    lemma_base_in_bounds(
                        src_row_bytes as int,
                        bpp as int,
                        src_info.width as int,
                        src_info.height as int,
                        sy as int,
                        sx as int,
                    );
                }
                let v: u8 = src[src_base + sk];
                proof {
                    lemma_base_in_bounds(
                        dst_row_bytes as int,
                        bpp as int,
                        dst_info.width as int,
                        dst_info.height as int,
                        yu as int,
                        xu as int,
                    );
                    lemma_partial_step(
                        g_dst,
                        *dst_info,
                        dst_row_bytes as int,
                        src@,
                        *src_info,
                        src_row_bytes as int,
                        off_x as int,
                        off_y as int,
                        y as int,
                        x as int,
                        k as int,
                        v,
                    );
                }
                let idx: usize = dst_base + k;
                dst[idx] = v;
                k += 1;
            }
            proof {
                lemma_partial_pixel_done(
                    g_dst,
                    *dst_info,
                    dst_row_bytes as int,
                    src@,
                    *src_info,
                    src_row_bytes as int,
                    off_x as int,
                    off_y as int,
                    y as int,
                    x as int,
                );
            }
            x += 1;
        }
        proof {
            lemma_partial_row_done(
                g_dst,
                *dst_info,
                dst_row_bytes as int,
                src@,
                *src_info,
                src_row_bytes as int,
                off_x as int,
                off_y as int,
                y as int,
                x0 as int,
                x1 as int,
            );
        }
        y += 1;
    }
    proof {
        lemma_partial_done(
            g_dst,
            *dst_info,
            dst_row_bytes as int,
            src@,
            *src_info,
            src_row_bytes as int,
            off_x as int,
            off_y as int,
            y1 as int,
            x0 as int,
        );
    }
}

} // verus!
