use weldwm::compositor::{
    validate_frame, FrameEventQueue, SurfaceCompositor, SurfaceEvent, SurfaceFrame,
};
use weldwm::pixels::{force_opaque, image_length_matches, pack_rows, swap_red_blue, unpremultiply_bgra};
use weldwm::renderer::{
    decode_capture_rows, frame_outcome, frame_result, padded_row_bytes, render_step, takes_capture,
    CaptureError, CaptureFormat, CursorOverlay, FrameResult, NestedTarget, RenderFailed,
    RenderStep, SurfaceUpdate,
};
use weldwm::number::Real32;
use weldwm::presenter::SurfaceStatus;
use weldwm::surface::SurfaceId;

fn frame(pixel: [u8; 4]) -> SurfaceFrame {
    SurfaceFrame {
        width: 1,
        height: 1,
        bgra_pixels: pixel.to_vec(),
        opaque: true,
    }
}

fn applied(compositor: &mut SurfaceCompositor, events: Vec<SurfaceEvent>) {
    let mut queue = FrameEventQueue::new();
    for event in events {
        queue.push(event);
    }
    compositor.apply_host_surface_events(&mut queue);
    assert_eq!(queue.len(), 0);
}

#[test]
fn applies_map_and_frame_in_one_update_and_reuses_the_image_handle() {
    let mut compositor = SurfaceCompositor::new(true, true);
    let surface = SurfaceId::new(7);
    applied(
        &mut compositor,
        vec![
            SurfaceEvent::Mapped { surface },
            SurfaceEvent::Frame { surface, frame: frame([3, 2, 1, 255]) },
        ],
    );

    assert!(compositor.has_surface_frame());
    let entry = compositor.entry(surface).expect("one surface entity");
    assert!(entry.alive);
    assert!(entry.visible);
    let first_handle = entry.node_image;
    assert!(first_handle.is_some());

    applied(
        &mut compositor,
        vec![SurfaceEvent::Frame { surface, frame: frame([7, 6, 5, 255]) }],
    );
    let entry = compositor.entry(surface).expect("surface entity");
    assert_eq!(entry.node_image, first_handle);
}

#[test]
fn unmap_drops_the_asset_and_destroy_removes_the_entity() {
    let mut compositor = SurfaceCompositor::new(true, true);
    let surface = SurfaceId::new(11);
    applied(
        &mut compositor,
        vec![SurfaceEvent::Frame { surface, frame: frame([3, 2, 1, 255]) }],
    );
    let first_handle = compositor
        .entry(surface)
        .and_then(|entry| entry.node_image)
        .expect("surface image should exist");

    applied(&mut compositor, vec![SurfaceEvent::Unmapped { surface }]);
    assert!(!compositor.has_surface_frame());
    assert!(
        compositor
            .images()
            .expect("images")
            .get(first_handle)
            .is_none()
    );

    applied(
        &mut compositor,
        vec![SurfaceEvent::Frame { surface, frame: frame([7, 6, 5, 255]) }],
    );
    let second_handle = compositor
        .entry(surface)
        .and_then(|entry| entry.node_image)
        .expect("remapped surface image should exist");
    assert_ne!(first_handle, second_handle);

    applied(&mut compositor, vec![SurfaceEvent::Destroyed { surface }]);
    assert!(compositor.entry(surface).is_none());
}

#[test]
fn coalesces_only_adjacent_frames_for_the_same_surface() {
    let a = SurfaceId::new(1);
    let b = SurfaceId::new(2);
    let mut events = FrameEventQueue::new();
    events.push(SurfaceEvent::Frame {
        surface: a,
        frame: frame([1, 1, 1, 255]),
    });
    events.push(SurfaceEvent::Frame {
        surface: a,
        frame: frame([2, 2, 2, 255]),
    });
    events.push(SurfaceEvent::Frame {
        surface: b,
        frame: frame([3, 3, 3, 255]),
    });
    events.push(SurfaceEvent::Frame {
        surface: a,
        frame: frame([4, 4, 4, 255]),
    });
    assert_eq!(events.len(), 3);
}

#[test]
fn converts_argb_frames_at_the_ingress_boundary() {
    let mut compositor = SurfaceCompositor::new(true, true);
    let surface = SurfaceId::new(13);
    applied(
        &mut compositor,
        vec![SurfaceEvent::Frame {
            surface,
            frame: SurfaceFrame {
                width: 1,
                height: 1,
                bgra_pixels: vec![25, 50, 75, 128],
                opaque: false,
            },
        }],
    );

    let image_handle = compositor
        .entry(surface)
        .and_then(|entry| entry.node_image)
        .expect("ARGB surface image should exist");
    let image = compositor
        .images()
        .expect("images")
        .get(image_handle)
        .expect("ARGB surface asset should exist");
    assert_eq!(image.pixels, [50, 100, 149, 128]);
}

#[test]
fn rejects_invalid_frames_without_creating_half_mapped_entities() {
    let mut compositor = SurfaceCompositor::new(true, true);
    applied(
        &mut compositor,
        vec![SurfaceEvent::Frame {
            surface: SurfaceId::new(17),
            frame: SurfaceFrame {
                width: 1,
                height: 1,
                bgra_pixels: vec![0; 3],
                opaque: true,
            },
        }],
    );

    assert!(compositor.entry(SurfaceId::new(17)).is_none());
}

#[test]
fn compositor_converts_premultiplied_bgra_to_straight_alpha() {
    let mut pixels = [25, 50, 75, 128, 9, 8, 7, 0, 3, 2, 1, 255];
    unpremultiply_bgra(&mut pixels);
    assert_eq!(pixels, [50, 100, 149, 128, 0, 0, 0, 0, 3, 2, 1, 255]);
}

#[test]
fn surface_converts_premultiplied_bgra_to_straight_alpha() {
    let mut pixels = [25, 50, 75, 128, 9, 8, 7, 0, 3, 2, 1, 255];
    unpremultiply_bgra(&mut pixels);
    assert_eq!(pixels, [50, 100, 149, 128, 0, 0, 0, 0, 3, 2, 1, 255]);
}

#[test]
fn channels_above_their_alpha_are_clamped() {
    let mut pixels = [200, 10, 20, 10, 1, 2];
    unpremultiply_bgra(&mut pixels);
    assert_eq!(pixels, [255, 255, 255, 10, 1, 2]);
}

#[test]
fn frames_without_a_camera_or_images_leave_no_image() {
    let surface = SurfaceId::new(5);
    let mut blind = SurfaceCompositor::new(false, true);
    applied(
        &mut blind,
        vec![SurfaceEvent::Frame { surface, frame: frame([1, 2, 3, 255]) }],
    );
    assert!(blind.entry(surface).is_none());
    let mut bare = SurfaceCompositor::new(true, false);
    applied(
        &mut bare,
        vec![SurfaceEvent::Frame { surface, frame: frame([1, 2, 3, 255]) }],
    );
    let entry = bare.entry(surface).expect("the entity exists");
    assert!(!entry.visible && !entry.frame_ready && entry.image.is_none());
    assert!(bare.images().is_none());
}

#[test]
fn entities_that_disappear_are_made_anew() {
    let surface = SurfaceId::new(6);
    let mut compositor = SurfaceCompositor::new(true, true);
    applied(
        &mut compositor,
        vec![SurfaceEvent::Frame { surface, frame: frame([1, 2, 3, 255]) }],
    );
    let handle = compositor.entry(surface).and_then(|entry| entry.image);
    compositor.forget_entity(surface);
    assert!(!compositor.entry(surface).expect("entry").alive);
    applied(&mut compositor, vec![SurfaceEvent::Mapped { surface }]);
    let entry = compositor.entry(surface).expect("entry");
    assert!(entry.alive && !entry.visible && entry.image.is_none());
    applied(
        &mut compositor,
        vec![SurfaceEvent::Frame { surface, frame: frame([4, 5, 6, 255]) }],
    );
    assert_ne!(compositor.entry(surface).and_then(|entry| entry.image), handle);
}

#[test]
fn the_last_of_several_frames_is_shown() {
    let surface = SurfaceId::new(8);
    let mut all = SurfaceCompositor::new(true, true);
    all.apply_event(SurfaceEvent::Frame { surface, frame: frame([1, 1, 1, 255]) });
    all.apply_event(SurfaceEvent::Frame { surface, frame: frame([2, 2, 2, 255]) });
    let mut last = SurfaceCompositor::new(true, true);
    last.apply_event(SurfaceEvent::Frame { surface, frame: frame([2, 2, 2, 255]) });
    assert_eq!(all.entry(surface), last.entry(surface));
    let handle = all.entry(surface).and_then(|entry| entry.image).expect("image");
    assert_eq!(
        all.images().expect("images").get(handle).expect("image").pixels,
        [2, 2, 2, 255]
    );
}

#[test]
fn frames_must_fill_their_size() {
    assert!(validate_frame(&frame([0; 4])));
    let frames = [(0, 1, 0), (1, 0, 0), (1, 1, 5), (0x1_0000, 0x1_0000, 0), (0x8000, 0x8000, 0)];
    for (width, height, length) in frames {
        assert!(!validate_frame(&SurfaceFrame {
            width,
            height,
            bgra_pixels: vec![0; length],
            opaque: true,
        }));
    }
    assert!(image_length_matches(3, 2, 24));
    assert!(!image_length_matches(3, 2, 23));
}

#[test]
fn strips_capture_padding_and_converts_bgra() {
    let mut mapped = vec![0; 512];
    mapped[..8].copy_from_slice(&[3, 2, 1, 4, 7, 6, 5, 8]);

    let pixels = decode_capture_rows(&mapped, 2, 1, 512, CaptureFormat::Bgra8)
        .expect("valid capture rows should decode");

    assert_eq!(pixels, [1, 2, 3, 4, 5, 6, 7, 8]);
}

#[test]
fn preserves_rgba_capture_bytes() {
    let mapped = [1, 2, 3, 4];

    let pixels = decode_capture_rows(&mapped, 1, 1, 4, CaptureFormat::Rgba8)
        .expect("valid capture rows should decode");

    assert_eq!(pixels, mapped);
}

#[test]
fn captures_that_do_not_fit_are_refused() {
    assert_eq!(
        decode_capture_rows(&[0; 8], 1, 3, 4, CaptureFormat::Rgba8),
        Err(CaptureError::ShortBuffer)
    );
    assert_eq!(
        decode_capture_rows(&[0; 8], 2, 1, 4, CaptureFormat::Rgba8),
        Err(CaptureError::ShortBuffer)
    );
    assert_eq!(
        decode_capture_rows(&[0; 4], 1, 1, 4, CaptureFormat::Other),
        Err(CaptureError::UnsupportedFormat)
    );
    let rows = decode_capture_rows(&[1, 2, 3, 4, 9, 5, 6, 7, 8, 9], 1, 2, 5, CaptureFormat::Rgba8);
    assert_eq!(rows, Ok(vec![1, 2, 3, 4, 5, 6, 7, 8]));
    assert_eq!(padded_row_bytes(1), 256);
    assert_eq!(padded_row_bytes(64), 256);
    assert_eq!(padded_row_bytes(65), 512);
    assert_eq!(padded_row_bytes(0), 0);
}

#[test]
fn rows_are_packed_from_their_places() {
    assert_eq!(pack_rows(&[1, 2, 3, 4, 5, 6], 3, 2, 2), [1, 2, 4, 5]);
    assert_eq!(pack_rows(&[1, 2, 3, 4, 5], 3, 2, 2), [1, 2, 4, 5]);
    assert!(pack_rows(&[], 3, 2, 0).is_empty());
    let mut pixels = vec![1, 2, 3, 4, 5];
    swap_red_blue(&mut pixels);
    assert_eq!(pixels, [3, 2, 1, 4, 5]);
}

#[test]
fn the_nested_renderer_recovers_from_surface_states() {
    assert_eq!(
        render_step(SurfaceStatus::Success),
        RenderStep::Draw { reconfigure_after: false }
    );
    assert_eq!(
        render_step(SurfaceStatus::Suboptimal),
        RenderStep::Draw { reconfigure_after: true }
    );
    assert_eq!(render_step(SurfaceStatus::Timeout), RenderStep::Skip);
    assert_eq!(render_step(SurfaceStatus::Occluded), RenderStep::Skip);
    assert_eq!(render_step(SurfaceStatus::Outdated), RenderStep::Reconfigure);
    assert_eq!(render_step(SurfaceStatus::Lost), RenderStep::Recreate);
    assert_eq!(render_step(SurfaceStatus::Validation), RenderStep::Fail);
    let skipped = FrameResult::not_presented();
    assert!(!skipped.presented && skipped.capture.is_none());
    let mut target = NestedTarget { width: 4, height: 3, client: None };
    assert!(!target.resize(0, 9));
    assert_eq!((target.width, target.height), (4, 3));
    assert!(target.resize(5, 6));
    assert_eq!((target.width, target.height), (5, 6));
    assert!(!target.has_client_frame());
    target.apply_surface_update(SurfaceUpdate::Frame { width: 1, height: 2 });
    assert!(target.has_client_frame());
    target.apply_surface_update(SurfaceUpdate::Removed);
    assert!(!target.has_client_frame());
}

#[test]
fn drawn_frames_are_presented_with_their_screenshot() {
    for reconfigure_after in [false, true] {
        let draw = RenderStep::Draw { reconfigure_after };
        assert!(takes_capture(draw, true));
        assert!(!takes_capture(draw, false));
        let plain = frame_result(draw, None).expect("drawn");
        assert!(plain.presented && plain.capture.is_none());
        let saved = frame_result(draw, Some(Ok(()))).expect("drawn");
        assert!(saved.presented && saved.capture == Some(Ok(())));
        let failed = frame_result(draw, Some(Err("no space".to_owned()))).expect("drawn");
        assert!(failed.presented);
        assert_eq!(failed.capture, Some(Err("no space".to_owned())));
    }
    for status in [
        SurfaceStatus::Timeout,
        SurfaceStatus::Occluded,
        SurfaceStatus::Outdated,
        SurfaceStatus::Lost,
    ] {
        let step = render_step(status);
        assert!(!takes_capture(step, true));
        let later = frame_result(step, None).expect("left for later");
        assert!(!later.presented && later.capture.is_none());
    }
    let step = render_step(SurfaceStatus::Validation);
    assert!(!takes_capture(step, true));
    assert_eq!(frame_result(step, None).err(), Some(RenderFailed::Validation));
}

#[test]
fn a_lost_surface_that_cannot_be_remade_fails_the_frame() {
    let lost = render_step(SurfaceStatus::Lost);
    assert_eq!(
        frame_outcome(lost, false, None).err(),
        Some(RenderFailed::NotRecreated)
    );
    let remade = frame_outcome(lost, true, None).expect("left for later");
    assert!(!remade.presented && remade.capture.is_none());
    let refused = render_step(SurfaceStatus::Validation);
    for recreated in [false, true] {
        assert_eq!(
            frame_outcome(refused, recreated, None).err(),
            Some(RenderFailed::Validation)
        );
        let draw = RenderStep::Draw { reconfigure_after: true };
        let drawn = frame_outcome(draw, recreated, Some(Ok(()))).expect("drawn");
        assert!(drawn.presented && drawn.capture == Some(Ok(())));
        assert!(frame_outcome(RenderStep::Skip, recreated, None).is_ok());
        assert!(frame_outcome(RenderStep::Reconfigure, recreated, None).is_ok());
    }
}

/// The cursor of a logical position, scaled to physical pixels.
fn cursor(position: Option<(f64, f64)>, scale_factor: f64) -> CursorOverlay {
    let single = |value: f64| Real32::new((value as f32).to_bits());
    match position {
        Some((x, y)) => CursorOverlay {
            center_x: single(x * scale_factor),
            center_y: single(y * scale_factor),
            radius: single(7.0 * scale_factor),
            visible: single(1.0),
        },
        None => CursorOverlay::default(),
    }
}

#[test]
fn cursor_overlay_scales_logical_position_and_radius_to_physical_pixels() {
    let single = |value: f32| Real32::new(value.to_bits());
    let scaled = cursor(Some((80.0, 40.0)), 1.25);
    assert_eq!(
        scaled,
        CursorOverlay {
            center_x: single(100.0),
            center_y: single(50.0),
            radius: single(8.75),
            visible: single(1.0),
        }
    );
    assert_eq!(cursor(None, 1.25), CursorOverlay::default());
    let expected: Vec<u8> = [100.0f32, 50.0, 8.75, 1.0]
        .iter()
        .flat_map(|value| value.to_le_bytes())
        .collect();
    assert_eq!(scaled.uniform_bytes(), expected);
    assert_eq!(CursorOverlay::default().uniform_bytes(), [0; 16]);
}

#[test]
fn pixels_are_made_opaque() {
    let mut pixels = vec![1, 2, 3, 4, 5, 6, 7, 8, 9];
    force_opaque(&mut pixels);
    assert_eq!(pixels, [1, 2, 3, 255, 5, 6, 7, 255, 9]);
}
