use skia_safe::canvas::{Paint, SamplingOptions};
use skia_safe::geometry::{IPoint, IRect, ISize};
use skia_safe::image::{Bitmap, Pixmap};
use skia_safe::image_info::{
    AlphaType, ColorSpace, ColorType, ContentChangeMode, ImageInfo, PixelGeometry, SurfaceProps,
};
use skia_safe::surface::Surface;

#[test]
fn create() {
    assert!(Surface::new_raster_n32_premul(ISize::new(0, 0)).is_none());
    let surface = Surface::new_raster_n32_premul(ISize::new(1, 1)).unwrap();
    assert_eq!(1, surface.width());
    assert_eq!(1, surface.height());
}

#[test]
fn test_raster_direct() {
    let image_info = ImageInfo::new(
        ISize::new(20, 20),
        ColorType::Rgba8888,
        AlphaType::Unpremul,
        ColorSpace::Unspecified,
    );
    let min_row_bytes = image_info.min_row_bytes();
    let pixels = vec![0u8; image_info.compute_byte_size(min_row_bytes)];
    let mut surface =
        Surface::new_raster_direct(&image_info, pixels, Some(min_row_bytes), None).unwrap();
    surface.canvas().record_draw();
}

#[test]
fn test_drawing_owned_as_exclusive_ref_ergonomics() {
    let mut surface = Surface::new_raster_n32_premul(ISize::new(16, 16)).unwrap();

    // A canvas from another surface can be drawn to, twice through the same
    // exclusive borrow.
    let mut surface2 = Surface::new_raster_n32_premul(ISize::new(16, 16)).unwrap();
    let canvas = surface2.canvas();
    surface.draw(canvas, IPoint::new(5, 5), SamplingOptions::default_options(), None);
    surface.draw(canvas, IPoint::new(10, 10), SamplingOptions::default_options(), None);
}

#[test]
fn fixed_format_construction_rejects_degenerate_sizes() {
    assert!(Surface::new_raster_n32_premul(ISize::new(0, 10)).is_none());
    assert!(Surface::new_raster_n32_premul(ISize::new(10, 0)).is_none());
    assert!(Surface::new_raster_n32_premul(ISize::new(-3, 10)).is_none());
    assert!(Surface::new_raster_n32_premul(ISize::new(10, -3)).is_none());
    assert!(Surface::new_raster_n32_premul(ISize::new(-1, -1)).is_none());
    assert!(Surface::new_raster_n32_premul(ISize::new(1, 1)).is_some());
}

#[test]
fn raster_direct_buffer_sizing_is_exact() {
    let info = ImageInfo::new(
        ISize::new(4, 3),
        ColorType::Rgba8888,
        AlphaType::Premul,
        ColorSpace::Unspecified,
    );
    let exact = info.compute_byte_size(info.min_row_bytes());
    assert_eq!(exact, 48);

    // One byte short: no surface.
    let short = vec![0u8; exact - 1];
    assert!(Surface::new_raster_direct(&info, short, None, None).is_none());

    // Exactly the computed size: a surface.
    let fits = vec![0u8; exact];
    assert!(Surface::new_raster_direct(&info, fits, None, None).is_some());

    // An undersized stride: no surface, whatever the buffer.
    let big = vec![0u8; exact * 2];
    assert!(Surface::new_raster_direct(&info, big, Some(15), None).is_none());
}

#[test]
fn raster_allocation_honours_the_stride() {
    let info = ImageInfo::new(
        ISize::new(3, 2),
        ColorType::Rgb565,
        AlphaType::Opaque,
        ColorSpace::Unspecified,
    );
    // A stride below the minimum is refused; zero means "choose for me".
    assert!(Surface::new_raster(&info, Some(5), None).is_none());
    assert!(Surface::new_raster(&info, Some(0), None).is_some());
    // A generous stride pads each row; the contents still read back.
    let mut padded = Surface::new_raster(&info, Some(16), None).unwrap();
    let mut dst = vec![0u8; 12];
    assert!(padded.read_pixels(&info, &mut dst, 6, IPoint::new(0, 0)));
    assert!(dst.iter().all(|b| *b == 0));
    assert!(Surface::new_raster(
        &ImageInfo::new(
            ISize::new(0, 2),
            ColorType::Rgb565,
            AlphaType::Opaque,
            ColorSpace::Unspecified,
        ),
        None,
        None,
    )
    .is_none());
}

#[test]
fn pixel_container_constructors_validate() {
    let info = ImageInfo::new(
        ISize::new(2, 2),
        ColorType::Alpha8,
        AlphaType::Premul,
        ColorSpace::Unspecified,
    );
    assert!(Pixmap::new(info, 2, vec![0u8; 3]).is_none());
    assert!(Pixmap::new(info, 1, vec![0u8; 4]).is_none());
    assert!(Pixmap::new(info, 2, vec![0u8; 4]).is_some());
    let degenerate = ImageInfo::new(
        ISize::new(0, 2),
        ColorType::Alpha8,
        AlphaType::Premul,
        ColorSpace::Unspecified,
    );
    assert!(Bitmap::new(degenerate).is_none());
    let bm = Bitmap::new(info).unwrap();
    assert_eq!(bm.row_bytes(), 2);
    assert_eq!(bm.pixels().len(), 4);
}

#[test]
fn props_are_fixed_at_construction() {
    let props = SurfaceProps::new(PixelGeometry::RgbHorizontal, true);
    let info = ImageInfo::new_n32_premul(ISize::new(2, 2));
    let surface = Surface::new_raster(&info, None, Some(&props)).unwrap();
    assert_eq!(*surface.props(), props);
    let plain = Surface::new_raster_n32_premul(ISize::new(2, 2)).unwrap();
    assert_eq!(*plain.props(), SurfaceProps::default_props());
}

#[test]
fn notification_chains_through_the_returned_borrow() {
    let mut surface = Surface::new_raster_n32_premul(ISize::new(2, 2)).unwrap();
    let g0 = surface.generation_id();
    surface
        .notify_content_will_change(ContentChangeMode::Retain)
        .notify_content_will_change(ContentChangeMode::Retain);
    assert_eq!(surface.generation_id(), g0 + 2);
}

#[test]
fn canvas_identity_is_stable() {
    let mut surface = Surface::new_raster_n32_premul(ISize::new(4, 4)).unwrap();
    let first = surface.canvas();
    let before = first.generation_id();
    first.record_draw();
    // The second request returns the same drawing context: the state mutated
    // through the first handle is visible through the second.
    let second = surface.canvas();
    assert_eq!(second.generation_id(), before + 1);
}

#[test]
fn content_version_strictly_increases() {
    let mut surface = Surface::new_raster_n32_premul(ISize::new(4, 4)).unwrap();
    let g0 = surface.generation_id();
    surface.notify_content_will_change(ContentChangeMode::Retain);
    let g1 = surface.generation_id();
    assert!(g1 > g0);
    surface.notify_content_will_change(ContentChangeMode::Discard);
    let g2 = surface.generation_id();
    assert!(g2 > g1);
    // Drawing operations also strictly increase it.
    surface.canvas().record_draw();
    let g3 = surface.generation_id();
    assert!(g3 > g2);
    let src_info = ImageInfo::new_n32_premul(ISize::new(2, 2));
    let src = vec![7u8; 16];
    surface.canvas().draw_image(&src_info, &src, 8, IPoint::new(0, 0));
    let g4 = surface.generation_id();
    assert!(g4 > g3);
}

#[test]
fn snapshot_bounds_clip_and_reject() {
    let mut surface = Surface::new_raster_n32_premul(ISize::new(10, 10)).unwrap();
    // Fully outside the surface: no image.
    assert!(surface.image_snapshot_with_bounds(IRect::from_xywh(20, 20, 5, 5)).is_none());
    // Partial overlap: clipped to the intersection.
    let image = surface.image_snapshot_with_bounds(IRect::from_xywh(8, 8, 5, 5)).unwrap();
    assert_eq!(image.width(), 2);
    assert_eq!(image.height(), 2);
    // Bounds equal to the surface: the whole thing.
    let whole = surface.image_snapshot_with_bounds(IRect::from_xywh(0, 0, 10, 10)).unwrap();
    assert_eq!(whole.width(), 10);
    assert_eq!(whole.height(), 10);
}

#[test]
fn snapshot_bounds_capture_the_covered_bytes() {
    let info = ImageInfo::new(
        ISize::new(2, 2),
        ColorType::Alpha8,
        AlphaType::Premul,
        ColorSpace::Unspecified,
    );
    let mut surface =
        Surface::new_raster_direct(&info, vec![1, 2, 3, 4], None, None).unwrap();
    // The right column of the 2x2 surface.
    let column = surface.image_snapshot_with_bounds(IRect::from_xywh(1, 0, 1, 2)).unwrap();
    assert_eq!(column.width(), 1);
    assert_eq!(column.height(), 2);
    assert_eq!(column.pixels().as_slice(), &[2, 4]);
}

#[test]
fn snapshot_is_unaffected_by_later_draws() {
    let info = ImageInfo::new_n32_premul(ISize::new(2, 1));
    let mut surface = Surface::new_raster_direct(&info, vec![9u8; 8], None, None).unwrap();
    let snap = surface.image_snapshot().unwrap();
    assert!(snap.pixels().iter().all(|b| *b == 9));
    // Overwrite the surface afterwards.
    let pm = Pixmap::new(info, 8, vec![1u8; 8]).unwrap();
    surface.write_pixels_from_pixmap(&pm, IPoint::new(0, 0));
    // The earlier capture still holds the old bytes.
    assert!(snap.pixels().iter().all(|b| *b == 9));
    let after = surface.image_snapshot().unwrap();
    assert!(after.pixels().iter().all(|b| *b == 1));
}

#[test]
fn write_then_read_roundtrip_is_bit_exact() {
    let surf_info = ImageInfo::new(
        ISize::new(4, 4),
        ColorType::Rgba8888,
        AlphaType::Premul,
        ColorSpace::Unspecified,
    );
    let mut surface = Surface::new_raster(&surf_info, None, None).unwrap();
    let pat_info = ImageInfo::new(
        ISize::new(2, 2),
        ColorType::Rgba8888,
        AlphaType::Premul,
        ColorSpace::Unspecified,
    );
    let pattern: Vec<u8> = (0u8..16).collect();
    let pm = Pixmap::new(pat_info, 8, pattern.clone()).unwrap();
    surface.write_pixels_from_pixmap(&pm, IPoint::new(0, 0));
    let mut readback = vec![0xAAu8; 16];
    assert!(surface.read_pixels(&pat_info, &mut readback, 8, IPoint::new(0, 0)));
    assert_eq!(readback, pattern);
}

#[test]
fn read_pixels_swizzles_between_rgba_and_bgra() {
    let surf_info = ImageInfo::new(
        ISize::new(1, 1),
        ColorType::Rgba8888,
        AlphaType::Premul,
        ColorSpace::Unspecified,
    );
    let mut surface =
        Surface::new_raster_direct(&surf_info, vec![1, 2, 3, 4], None, None).unwrap();
    let dst_info = ImageInfo::new(
        ISize::new(1, 1),
        ColorType::Bgra8888,
        AlphaType::Premul,
        ColorSpace::Unspecified,
    );
    let mut dst = vec![0u8; 4];
    assert!(surface.read_pixels(&dst_info, &mut dst, 4, IPoint::new(0, 0)));
    assert_eq!(dst, vec![3, 2, 1, 4]);
}

#[test]
fn read_pixels_short_destination_fails_untouched() {
    let mut surface = Surface::new_raster_n32_premul(ISize::new(4, 4)).unwrap();
    let dst_info = ImageInfo::new(
        ISize::new(4, 4),
        ColorType::Rgba8888,
        AlphaType::Premul,
        ColorSpace::Unspecified,
    );
    // Shorter than dest_row_stride * dest_height.
    let mut dst = vec![0x5Au8; 4 * 16 - 1];
    assert!(!surface.read_pixels(&dst_info, &mut dst, 16, IPoint::new(0, 0)));
    assert!(dst.iter().all(|b| *b == 0x5A));
}

#[test]
fn read_pixels_rejects_disjoint_rectangles() {
    let mut surface = Surface::new_raster_n32_premul(ISize::new(4, 4)).unwrap();
    let dst_info = ImageInfo::new(
        ISize::new(2, 2),
        ColorType::Rgba8888,
        AlphaType::Premul,
        ColorSpace::Unspecified,
    );
    let mut dst = vec![0u8; 16];
    // A source offset past the surface: nothing intersects.
    assert!(!surface.read_pixels(&dst_info, &mut dst, 8, IPoint::new(10, 10)));
    // Alpha treatments that differ need color math: no copy.
    let unpremul = ImageInfo::new(
        ISize::new(2, 2),
        ColorType::Rgba8888,
        AlphaType::Unpremul,
        ColorSpace::Unspecified,
    );
    assert!(!surface.read_pixels(&unpremul, &mut dst, 8, IPoint::new(0, 0)));
}

#[test]
fn negative_offsets_shift_the_copied_region() {
    let surf_info = ImageInfo::new(
        ISize::new(2, 1),
        ColorType::Alpha8,
        AlphaType::Premul,
        ColorSpace::Unspecified,
    );
    let mut surface =
        Surface::new_raster_direct(&surf_info, vec![11, 22], None, None).unwrap();
    let dst_info = ImageInfo::new(
        ISize::new(2, 1),
        ColorType::Alpha8,
        AlphaType::Premul,
        ColorSpace::Unspecified,
    );
    let mut dst = vec![0u8; 2];
    // Reading from (-1, 0): surface pixel 0 lands at destination pixel 1.
    assert!(surface.read_pixels(&dst_info, &mut dst, 2, IPoint::new(-1, 0)));
    assert_eq!(dst, vec![0, 11]);
}

#[test]
fn write_pixels_clips_to_surface_bounds() {
    let info1 = ImageInfo::new(
        ISize::new(2, 2),
        ColorType::Alpha8,
        AlphaType::Premul,
        ColorSpace::Unspecified,
    );
    let mut surface = Surface::new_raster(&info1, None, None).unwrap();
    let pm = Pixmap::new(info1, 2, vec![1, 2, 3, 4]).unwrap();
    // Offset (1, 1): only the source's top-left pixel lands, at (1, 1).
    surface.write_pixels_from_pixmap(&pm, IPoint::new(1, 1));
    let snap = surface.image_snapshot().unwrap();
    assert_eq!(snap.pixels().as_slice(), &[0, 0, 0, 1]);
    // A fully disjoint destination offset copies nothing and keeps the
    // version where it was.
    let before = surface.generation_id();
    surface.write_pixels_from_pixmap(&pm, IPoint::new(5, 5));
    assert_eq!(surface.generation_id(), before);
}

#[test]
fn bitmap_transfer_roundtrip() {
    let info = ImageInfo::new(
        ISize::new(2, 2),
        ColorType::Rgb565,
        AlphaType::Opaque,
        ColorSpace::Unspecified,
    );
    let mut surface = Surface::new_raster(&info, None, None).unwrap();
    let mut bitmap = Bitmap::new(info).unwrap();
    // A fresh bitmap reads back the fresh surface: all zero.
    assert!(surface.read_pixels_to_bitmap(&mut bitmap, IPoint::new(0, 0)));
    assert!(bitmap.pixels().iter().all(|b| *b == 0));
    // Write a pattern from a pixmap, read it back through a bitmap.
    let pm = Pixmap::new(info, 4, vec![10, 20, 30, 40, 50, 60, 70, 80]).unwrap();
    surface.write_pixels_from_pixmap(&pm, IPoint::new(0, 0));
    assert!(surface.read_pixels_to_bitmap(&mut bitmap, IPoint::new(0, 0)));
    assert_eq!(bitmap.pixels().as_slice(), &[10, 20, 30, 40, 50, 60, 70, 80]);
}

#[test]
fn pixmap_readback_matches() {
    let info = ImageInfo::new(
        ISize::new(2, 1),
        ColorType::Alpha8,
        AlphaType::Premul,
        ColorSpace::Unspecified,
    );
    let mut surface = Surface::new_raster_direct(&info, vec![5, 6], None, None).unwrap();
    let mut dst = Pixmap::new(info, 2, vec![0, 0]).unwrap();
    assert!(surface.read_pixels_to_pixmap(&mut dst, IPoint::new(0, 0)));
    assert_eq!(dst.pixels().as_slice(), &[5, 6]);
}

#[test]
fn null_surface_reports_size_but_never_pixels() {
    let mut surface = Surface::new_null(ISize::new(100, 100)).unwrap();
    assert_eq!(surface.width(), 100);
    assert_eq!(surface.height(), 100);
    assert!(surface.image_snapshot().is_none());
    assert!(surface.image_snapshot_with_bounds(IRect::from_xywh(0, 0, 10, 10)).is_none());
    assert!(surface.peek_pixels().is_none());
    let dst_info = ImageInfo::new_n32_premul(ISize::new(2, 2));
    let mut dst = vec![3u8; 16];
    assert!(!surface.read_pixels(&dst_info, &mut dst, 8, IPoint::new(0, 0)));
    assert!(dst.iter().all(|b| *b == 3));
    // Null construction still refuses degenerate sizes.
    assert!(Surface::new_null(ISize::new(0, 5)).is_none());
}

#[test]
fn peek_pixels_sees_raster_contents() {
    let info = ImageInfo::new(
        ISize::new(2, 1),
        ColorType::Alpha8,
        AlphaType::Premul,
        ColorSpace::Unspecified,
    );
    let mut surface = Surface::new_raster_direct(&info, vec![8, 9], None, None).unwrap();
    let pm = surface.peek_pixels().unwrap();
    assert_eq!(pm.pixels().as_slice(), &[8, 9]);
    assert_eq!(pm.row_bytes(), 2);
}

#[test]
fn derived_surface_keeps_backing_kind() {
    let mut raster = Surface::new_raster_n32_premul(ISize::new(4, 4)).unwrap();
    let derived = raster.new_surface(&ImageInfo::new_n32_premul(ISize::new(2, 2))).unwrap();
    assert_eq!(derived.width(), 2);
    let mut derived = derived;
    assert!(derived.image_snapshot().is_some());

    let mut null = Surface::new_null(ISize::new(4, 4)).unwrap();
    let mut derived_null = null.new_surface_with_dimensions(ISize::new(3, 3)).unwrap();
    assert_eq!(derived_null.width(), 3);
    assert!(derived_null.image_snapshot().is_none());

    // Degenerate dimensions are refused.
    assert!(raster.new_surface_with_dimensions(ISize::new(0, 3)).is_none());
}

#[test]
fn surface_draw_blits_into_target_canvas() {
    let info = ImageInfo::new(
        ISize::new(2, 1),
        ColorType::Alpha8,
        AlphaType::Premul,
        ColorSpace::Unspecified,
    );
    let mut src = Surface::new_raster_direct(&info, vec![41, 42], None, None).unwrap();
    let target_info = ImageInfo::new(
        ISize::new(4, 1),
        ColorType::Alpha8,
        AlphaType::Premul,
        ColorSpace::Unspecified,
    );
    let mut target = Surface::new_raster(&target_info, None, None).unwrap();
    src.draw(
        target.canvas(),
        IPoint::new(1, 0),
        SamplingOptions::default_options(),
        None,
    );
    let snap = target.image_snapshot().unwrap();
    assert_eq!(snap.pixels().as_slice(), &[0, 41, 42, 0]);
}

#[test]
fn painted_draws_record_without_a_modelled_blit() {
    let info = ImageInfo::new(
        ISize::new(2, 1),
        ColorType::Alpha8,
        AlphaType::Premul,
        ColorSpace::Unspecified,
    );
    let mut src = Surface::new_raster_direct(&info, vec![41, 42], None, None).unwrap();
    let mut target = Surface::new_raster(&info, None, None).unwrap();
    let paint = Paint::new();
    let before = target.generation_id();
    src.draw(
        target.canvas(),
        IPoint::new(0, 0),
        SamplingOptions::default_options(),
        Some(&paint),
    );
    // The engine's filtered rendering is out of the model's scope: the
    // content version advanced, the modelled bytes did not.
    assert!(target.generation_id() > before);
    let snap = target.image_snapshot().unwrap();
    assert!(snap.pixels().iter().all(|b| *b == 0));
}
