use skia_safe::geometry::{IPoint, ISize};
use skia_safe::gpu::{
    BackendHandleAccess, BackendSurfaceAccess, BackendTexture, Budgeted, DeferredDisplayList,
    FlushInfo, RecordingContext, SemaphoresSubmitted, SurfaceOrigin,
};
use skia_safe::image_info::{AlphaType, ColorSpace, ColorType, ImageInfo};
use skia_safe::surface::Surface;

fn test_context() -> RecordingContext {
    RecordingContext::new(4096, 8, true)
}

fn test_texture(width: i32, height: i32) -> BackendTexture {
    BackendTexture {
        width,
        height,
        color_type: ColorType::Rgba8888,
        color_space: ColorSpace::Unspecified,
        sample_count: 1,
        id: 17,
    }
}

#[test]
fn backend_texture_wrap_checks_configuration() {
    let ctx = test_context();
    let tex = test_texture(64, 64);
    assert!(
        Surface::from_backend_texture(
            &ctx,
            &tex,
            SurfaceOrigin::TopLeft,
            0,
            ColorType::Rgba8888,
            ColorSpace::Unspecified,
            None,
        )
        .is_some()
    );
    // A color type that disagrees with the texture's: no surface.
    assert!(
        Surface::from_backend_texture(
            &ctx,
            &tex,
            SurfaceOrigin::TopLeft,
            0,
            ColorType::Bgra8888,
            ColorSpace::Unspecified,
            None,
        )
        .is_none()
    );
    // Dimensions past the context's limit: no surface.
    let huge = test_texture(5000, 64);
    assert!(
        Surface::from_backend_texture(
            &ctx,
            &huge,
            SurfaceOrigin::TopLeft,
            0,
            ColorType::Rgba8888,
            ColorSpace::Unspecified,
            None,
        )
        .is_none()
    );
    // An sRGB configuration needs a context that supports sRGB.
    let no_srgb = RecordingContext::new(4096, 8, false);
    assert!(
        Surface::from_backend_texture(
            &no_srgb,
            &tex,
            SurfaceOrigin::TopLeft,
            0,
            ColorType::Rgba8888,
            ColorSpace::Srgb,
            None,
        )
        .is_none()
    );
}

#[test]
fn sample_count_requests_are_rounded_into_range() {
    let ctx = test_context();
    let tex = test_texture(16, 16);
    // Zero means no multisampling: one sample per pixel.
    let wrapped = Surface::from_backend_texture(
        &ctx,
        &tex,
        SurfaceOrigin::TopLeft,
        0,
        ColorType::Rgba8888,
        ColorSpace::Unspecified,
        None,
    )
    .unwrap();
    assert_eq!(wrapped.characterize().unwrap().sample_count, 1);
    // A request past the supported maximum is rounded down to it.
    let greedy = Surface::from_backend_texture(
        &ctx,
        &tex,
        SurfaceOrigin::TopLeft,
        100,
        ColorType::Rgba8888,
        ColorSpace::Unspecified,
        None,
    )
    .unwrap();
    assert_eq!(greedy.characterize().unwrap().sample_count, 8);
}

#[test]
fn render_target_construction_validates_info() {
    let ctx = test_context();
    let good = ImageInfo::new(
        ISize::new(32, 32),
        ColorType::Rgba8888,
        AlphaType::Premul,
        ColorSpace::Srgb,
    );
    assert!(
        Surface::new_render_target(&ctx, Budgeted::Yes, &good, 4, None, None, false).is_some()
    );
    let degenerate = ImageInfo::new(
        ISize::new(0, 32),
        ColorType::Rgba8888,
        AlphaType::Premul,
        ColorSpace::Unspecified,
    );
    assert!(
        Surface::new_render_target(&ctx, Budgeted::Yes, &degenerate, 4, None, None, false)
            .is_none()
    );
}

#[test]
fn characterization_roundtrip_is_compatible() {
    let ctx = test_context();
    let info = ImageInfo::new(
        ISize::new(32, 32),
        ColorType::Rgba8888,
        AlphaType::Premul,
        ColorSpace::Unspecified,
    );
    let mut surface =
        Surface::new_render_target(&ctx, Budgeted::Yes, &info, 4, None, None, false).unwrap();
    let characterization = surface.characterize().unwrap();
    assert!(surface.is_compatible(&characterization));

    // A surface created against the characterization reports itself
    // compatible with exactly that characterization.
    let sibling =
        Surface::new_render_target_with_characterization(&ctx, &characterization, Budgeted::Yes)
            .unwrap();
    assert!(sibling.is_compatible(&characterization));

    // A raster surface supports no characterization and is compatible with
    // none.
    let raster = Surface::new_raster_n32_premul(ISize::new(32, 32)).unwrap();
    assert!(raster.characterize().is_none());
    assert!(!raster.is_compatible(&characterization));
}

#[test]
fn display_list_replay_requires_compatibility_and_zero_offset() {
    let ctx = test_context();
    let info = ImageInfo::new(
        ISize::new(16, 16),
        ColorType::Rgba8888,
        AlphaType::Premul,
        ColorSpace::Unspecified,
    );
    let mut surface =
        Surface::new_render_target(&ctx, Budgeted::Yes, &info, 0, None, None, false).unwrap();
    let characterization = surface.characterize().unwrap();
    let ddl = DeferredDisplayList { characterization };
    let before = surface.generation_id();
    assert!(surface.draw_display_list(&ddl));
    assert!(surface.generation_id() > before);
    // A non-zero offset is refused.
    assert!(!surface.draw_display_list_with_offset(&ddl, IPoint::new(1, 0)));
    // An incompatible destination is refused.
    let mut other = Surface::new_raster_n32_premul(ISize::new(16, 16)).unwrap();
    assert!(!other.draw_display_list(&ddl));
}

#[test]
fn flush_clears_recorded_work() {
    let ctx = test_context();
    let info = ImageInfo::new(
        ISize::new(8, 8),
        ColorType::Rgba8888,
        AlphaType::Premul,
        ColorSpace::Unspecified,
    );
    let mut surface =
        Surface::new_render_target(&ctx, Budgeted::Yes, &info, 4, None, None, false).unwrap();
    surface.canvas().record_draw();
    assert!(surface.canvas().pending_commands);
    assert!(surface.canvas().unresolved_msaa);
    surface.resolve_msaa();
    assert!(surface.canvas().pending_commands);
    assert!(!surface.canvas().unresolved_msaa);
    surface.flush_and_submit();
    assert!(!surface.canvas().pending_commands);
    // The flush variants issue the same work and pass no semaphores.
    surface.canvas().record_draw();
    assert_eq!(
        surface.flush_with_access_info(BackendSurfaceAccess::Present, &FlushInfo::default_info()),
        SemaphoresSubmitted::No
    );
    assert!(!surface.canvas().pending_commands);
    surface.canvas().record_draw();
    assert_eq!(
        surface.flush_with_mutable_state(&FlushInfo::default_info(), None),
        SemaphoresSubmitted::No
    );
    assert!(!surface.canvas().pending_commands);
    surface.flush();
    surface.flush_submit_and_sync_cpu();
}

#[test]
fn backend_handles_come_from_matching_backings() {
    let ctx = test_context();
    let tex = test_texture(16, 16);
    let mut wrapped = Surface::from_backend_texture(
        &ctx,
        &tex,
        SurfaceOrigin::TopLeft,
        0,
        ColorType::Rgba8888,
        ColorSpace::Unspecified,
        None,
    )
    .unwrap();
    let handle = wrapped.get_backend_texture(BackendHandleAccess::FlushRead).unwrap();
    assert_eq!(handle.id, 17);
    assert_eq!(handle.width, 16);
    assert!(wrapped.get_backend_render_target(BackendHandleAccess::FlushRead).is_none());
    assert!(wrapped.recording_context().is_some());

    let info = ImageInfo::new(
        ISize::new(8, 8),
        ColorType::Rgba8888,
        AlphaType::Premul,
        ColorSpace::Unspecified,
    );
    let mut target =
        Surface::new_render_target(&ctx, Budgeted::Yes, &info, 0, None, None, false).unwrap();
    assert!(target.get_backend_texture(BackendHandleAccess::FlushWrite).is_none());
    assert!(target.get_backend_render_target(BackendHandleAccess::FlushWrite).is_some());

    let mut raster = Surface::new_raster_n32_premul(ISize::new(8, 8)).unwrap();
    assert!(raster.recording_context().is_none());
}

#[test]
fn replace_backend_texture_needs_matching_shape() {
    let ctx = test_context();
    let tex = test_texture(16, 16);
    let mut surface = Surface::from_backend_texture(
        &ctx,
        &tex,
        SurfaceOrigin::TopLeft,
        0,
        ColorType::Rgba8888,
        ColorSpace::Unspecified,
        None,
    )
    .unwrap();
    let mut replacement = test_texture(16, 16);
    replacement.id = 99;
    let before = surface.generation_id();
    assert!(surface.replace_backend_texture(&replacement, SurfaceOrigin::TopLeft));
    assert!(surface.generation_id() > before);
    assert_eq!(
        surface.get_backend_texture(BackendHandleAccess::FlushRead).unwrap().id,
        99
    );
    // A differently shaped replacement is refused.
    let wrong = test_texture(8, 16);
    assert!(!surface.replace_backend_texture(&wrong, SurfaceOrigin::TopLeft));
    // A raster surface has no texture to replace.
    let mut raster = Surface::new_raster_n32_premul(ISize::new(8, 8)).unwrap();
    assert!(!raster.replace_backend_texture(&replacement, SurfaceOrigin::TopLeft));
}

#[test]
fn gpu_surfaces_transfer_pixels() {
    let ctx = test_context();
    let info = ImageInfo::new(
        ISize::new(2, 2),
        ColorType::Rgba8888,
        AlphaType::Premul,
        ColorSpace::Unspecified,
    );
    let mut surface =
        Surface::new_render_target(&ctx, Budgeted::Yes, &info, 0, None, None, false).unwrap();
    let pattern: Vec<u8> = (100u8..116).collect();
    let pm = skia_safe::image::Pixmap::new(info, 8, pattern.clone()).unwrap();
    surface.write_pixels_from_pixmap(&pm, IPoint::new(0, 0));
    let mut dst = vec![0u8; 16];
    assert!(surface.read_pixels(&info, &mut dst, 8, IPoint::new(0, 0)));
    assert_eq!(dst, pattern);
    // GPU-backed surfaces have no raster pixels to peek at.
    assert!(surface.peek_pixels().is_none());
}
