use weldwm::number::{Real32, Real64};
use weldwm::output::{
    replace_metrics, MetricsChange, NestedOutputMetrics, OutputMetricsError, OutputMode,
};
use weldwm::raw_input::{
    ButtonState, InputPosition, LinuxButtonCode, LinuxKeycode, RawScrollFrame, RawScrollPhase,
    RawScrollSource,
};
use weldwm::root_commit::{press_moves_keyboard_focus, SingleWindow};
use weldwm::routing::{SeatInputEffect, SeatInputEffectKind};
use weldwm::seat::{
    apply_toplevel_focus, axis_frame, begin_pointer_interaction, clear_input_focus_for_surface,
    grab_ends, pointer_focus_tree, protocol_keycode, sends_configure, transition_pending_focus,
    Delivery, FocusCandidate, FocusPlan, FocusTransition, FocusTree, InteractionContext,
    PointerInteraction, PressedButtons, SeatDevices, SeatState,
};
use weldwm::shm::{
    check_rounded_view, check_viewport, checked_buffer_extent, checked_buffer_scale,
    copy_shm_contents, normalize_bgra_rows, BufferViewError, InvalidBufferScale, ShmBufferData,
    ShmError, ShmFormat, SurfaceBufferMetadata, ViewportSource,
};
use weldwm::surface::{
    SurfaceContentView, SurfaceId, WindowDecoration, WindowInteractionRequestKind,
    WindowResizeEdge,
};
use weldwm::surface_tree::should_drain_callbacks;
use weldwm::toplevel::{
    allocate_surface_id, decoration_reply, DecorationReply, DecorationRequest, IndexedStore,
};

fn double(value: f64) -> Real64 {
    Real64::new(value.to_bits())
}

fn single(value: f32) -> Real32 {
    Real32::new(value.to_bits())
}

#[test]
fn server_client_buffer_scale_must_be_positive() {
    assert_eq!(checked_buffer_scale(2).expect("valid scale"), 2);
    assert!(checked_buffer_scale(0).is_err());
    assert!(checked_buffer_scale(-1).is_err());
}

#[test]
fn shm_client_buffer_scale_must_be_positive() {
    assert_eq!(checked_buffer_scale(2).expect("valid scale"), 2);
    assert!(checked_buffer_scale(0).is_err());
    assert!(checked_buffer_scale(-1).is_err());
    assert_eq!(checked_buffer_scale(-7), Err(InvalidBufferScale(-7)));
}

fn padded_source() -> [u8; 20] {
    [
        1, 2, 3, 4, 5, 6, 7, 8, 99, 99, 9, 10, 11, 12, 13, 14, 15, 16, 88, 88,
    ]
}

#[test]
fn server_strips_row_padding() {
    let pixels = normalize_bgra_rows(&padded_source(), 2, 2, 10, ShmFormat::Argb8888)
        .expect("valid padded pixels");
    assert_eq!(
        pixels,
        [1, 2, 3, 4, 5, 6, 7, 8, 9, 10, 11, 12, 13, 14, 15, 16]
    );
}

#[test]
fn shm_strips_row_padding() {
    let pixels = normalize_bgra_rows(&padded_source(), 2, 2, 10, ShmFormat::Argb8888)
        .expect("valid padded pixels");
    assert_eq!(
        pixels,
        [1, 2, 3, 4, 5, 6, 7, 8, 9, 10, 11, 12, 13, 14, 15, 16]
    );
}

#[test]
fn server_preserves_argb_alpha() {
    let pixels = normalize_bgra_rows(&[3, 2, 1, 17], 1, 1, 4, ShmFormat::Argb8888)
        .expect("valid ARGB pixel");
    assert_eq!(pixels, [3, 2, 1, 17]);
}

#[test]
fn shm_preserves_argb_alpha() {
    let pixels = normalize_bgra_rows(&[3, 2, 1, 17], 1, 1, 4, ShmFormat::Argb8888)
        .expect("valid ARGB pixel");
    assert_eq!(pixels, [3, 2, 1, 17]);
}

#[test]
fn server_forces_xrgb_alpha_opaque() {
    let pixels = normalize_bgra_rows(&[3, 2, 1, 0], 1, 1, 4, ShmFormat::Xrgb8888)
        .expect("valid XRGB pixel");
    assert_eq!(pixels, [3, 2, 1, 255]);
}

#[test]
fn shm_forces_xrgb_alpha_opaque() {
    let pixels = normalize_bgra_rows(&[3, 2, 1, 0], 1, 1, 4, ShmFormat::Xrgb8888)
        .expect("valid XRGB pixel");
    assert_eq!(pixels, [3, 2, 1, 255]);
}

#[test]
fn server_rejects_short_rows() {
    assert!(normalize_bgra_rows(&[0; 7], 2, 1, 7, ShmFormat::Argb8888).is_err());
}

#[test]
fn shm_rejects_short_rows() {
    assert!(normalize_bgra_rows(&[0; 7], 2, 1, 7, ShmFormat::Argb8888).is_err());
}

#[test]
fn row_layouts_are_checked_in_order() {
    let source = [0; 16];
    assert_eq!(
        normalize_bgra_rows(&source, 1, 1, 4, ShmFormat::Other),
        Err(ShmError::UnsupportedFormat)
    );
    assert_eq!(
        normalize_bgra_rows(&source, usize::MAX, 1, 4, ShmFormat::Argb8888),
        Err(ShmError::RowSizeOverflow)
    );
    assert_eq!(
        normalize_bgra_rows(&source, 1, usize::MAX, 8, ShmFormat::Argb8888),
        Err(ShmError::SourceSizeOverflow)
    );
    assert_eq!(
        normalize_bgra_rows(&source, 2, 1, 4, ShmFormat::Argb8888),
        Err(ShmError::InvalidRowLayout)
    );
    assert_eq!(
        normalize_bgra_rows(&source, 1, 5, 4, ShmFormat::Argb8888),
        Err(ShmError::InvalidRowLayout)
    );
    assert_eq!(normalize_bgra_rows(&[], 0, 0, 0, ShmFormat::Argb8888), Ok(vec![]));
}

fn buffer(offset: i32, width: i32, height: i32, stride: i32, format: ShmFormat) -> ShmBufferData {
    ShmBufferData { offset, width, height, stride, format }
}

#[test]
fn buffers_are_copied_out_of_their_pool() {
    let pool = [9, 9, 1, 2, 3, 4, 7, 7, 5, 6, 7, 8];
    let copy = copy_shm_contents(&pool, buffer(2, 1, 2, 6, ShmFormat::Xrgb8888)).expect("valid");
    assert_eq!((copy.width, copy.height, copy.opaque), (1, 2, true));
    assert_eq!(copy.bgra_pixels, [1, 2, 3, 255, 5, 6, 7, 255]);
    let copy = copy_shm_contents(&pool, buffer(2, 1, 2, 6, ShmFormat::Argb8888)).expect("valid");
    assert!(!copy.opaque);
    assert_eq!(copy.bgra_pixels, [1, 2, 3, 4, 5, 6, 7, 8]);
    let refused = |data: ShmBufferData| copy_shm_contents(&pool, data).map(|_| ()).unwrap_err();
    let argb = ShmFormat::Argb8888;
    assert_eq!(refused(buffer(0, -1, -1, -1, argb)), ShmError::NegativeWidth);
    assert_eq!(refused(buffer(0, 1, -1, -1, argb)), ShmError::NegativeHeight);
    assert_eq!(refused(buffer(-1, 1, 1, -1, argb)), ShmError::NegativeStride);
    assert_eq!(refused(buffer(-1, 1, 1, 4, argb)), ShmError::NegativeOffset);
    assert_eq!(refused(buffer(0, 0, 1, 4, argb)), ShmError::ZeroSized);
    assert_eq!(refused(buffer(0, 1, 0, 4, argb)), ShmError::ZeroSized);
    assert_eq!(refused(buffer(0, 2, 1, 7, argb)), ShmError::StrideTooShort);
    assert_eq!(refused(buffer(9, 1, 1, 4, argb)), ShmError::BeyondPool);
    assert_eq!(
        refused(buffer(0, 1, 1, 4, ShmFormat::Other)),
        ShmError::UnsupportedFormat
    );
}

fn metadata(width: u32, height: u32, scale: u32) -> SurfaceBufferMetadata {
    SurfaceBufferMetadata {
        width,
        height,
        scale,
        normal_transform: true,
    }
}

/// The view of a buffer, its sums and products worked out in double precision.
fn translate(
    metadata: SurfaceBufferMetadata,
    logical: (i32, i32),
    source: Option<(f64, f64, f64, f64)>,
    destination: Option<(i32, i32)>,
) -> Result<SurfaceContentView, BufferViewError> {
    let (x, y, width, height) =
        source.unwrap_or((0.0, 0.0, f64::from(logical.0), f64::from(logical.1)));
    let shown = destination.unwrap_or(logical);
    check_viewport(
        metadata,
        ViewportSource {
            x: double(x),
            y: double(y),
            width: double(width),
            height: double(height),
            right: double(x + width),
            bottom: double(y + height),
        },
        double(f64::from(logical.0)),
        double(f64::from(logical.1)),
        shown.0,
        shown.1,
    )?;
    let scale = f64::from(metadata.scale);
    let [left, top, wide, high] = [x, y, width, height].map(|side| (side * scale) as f32);
    let view = SurfaceContentView {
        source_x: single(left),
        source_y: single(top),
        source_width: single(wide),
        source_height: single(high),
        source_right: single(left + wide),
        source_bottom: single(top + high),
        logical_width: single(shown.0 as f32),
        logical_height: single(shown.1 as f32),
    };
    check_rounded_view(
        view,
        single(metadata.width as f32),
        single(metadata.height as f32),
    )?;
    Ok(view)
}

fn scale_only_surface_view() {
    let view = translate(metadata(1280, 960, 2), (640, 480), None, None)
        .expect("valid scaled buffer");

    assert_eq!(view.source_x, single(0.0));
    assert_eq!(view.source_y, single(0.0));
    assert_eq!(view.source_width, single(1280.0));
    assert_eq!(view.source_height, single(960.0));
    assert_eq!(view.logical_width, single(640.0));
    assert_eq!(view.logical_height, single(480.0));
}

#[test]
fn server_scale_only_surface_view_uses_the_full_buffer() {
    scale_only_surface_view();
}

#[test]
fn shm_scale_only_surface_view_uses_the_full_buffer() {
    scale_only_surface_view();
}

fn viewport_destination() {
    let view = translate(metadata(800, 600, 1), (800, 600), None, Some((640, 480)))
        .expect("valid fractional-scale viewport");

    assert_eq!(view.logical_width, single(640.0));
    assert_eq!(view.logical_height, single(480.0));
    assert_eq!(view.source_width, single(800.0));
    assert_eq!(view.source_height, single(600.0));
}

#[test]
fn server_viewport_destination_defines_surface_logical_size() {
    viewport_destination();
}

#[test]
fn shm_viewport_destination_defines_surface_logical_size() {
    viewport_destination();
}

fn viewport_source() {
    let view = translate(
        metadata(1280, 960, 2),
        (640, 480),
        Some((10.0, 20.0, 100.0, 50.0)),
        Some((200, 100)),
    )
    .expect("valid cropped viewport");

    assert_eq!(view.source_x, single(20.0));
    assert_eq!(view.source_y, single(40.0));
    assert_eq!(view.source_width, single(200.0));
    assert_eq!(view.source_height, single(100.0));
    assert_eq!(view.logical_width, single(200.0));
    assert_eq!(view.logical_height, single(100.0));
}

#[test]
fn server_viewport_source_is_converted_from_logical_to_physical_pixels() {
    viewport_source();
}

#[test]
fn shm_viewport_source_is_converted_from_logical_to_physical_pixels() {
    viewport_source();
}

fn out_of_bounds_viewport() {
    let result = translate(
        metadata(1280, 960, 2),
        (640, 480),
        Some((600.0, 0.0, 100.0, 50.0)),
        Some((100, 50)),
    );
    assert!(result.is_err());
}

#[test]
fn server_rejects_out_of_bounds_viewport_sources() {
    out_of_bounds_viewport();
}

#[test]
fn shm_rejects_out_of_bounds_viewport_sources() {
    out_of_bounds_viewport();
}

fn rotated_buffer() {
    let result = translate(
        SurfaceBufferMetadata {
            normal_transform: false,
            ..metadata(640, 480, 1)
        },
        (480, 640),
        None,
        None,
    );
    assert!(result.is_err());
}

#[test]
fn server_rejects_non_normal_buffer_transforms() {
    rotated_buffer();
}

#[test]
fn shm_rejects_non_normal_buffer_transforms() {
    rotated_buffer();
}

#[test]
fn views_that_cannot_be_shown_are_refused() {
    let empty = translate(metadata(8, 8, 1), (8, 8), Some((0.0, 0.0, 0.0, 4.0)), None);
    assert_eq!(empty, Err(BufferViewError::InvalidViewport));
    let infinite = translate(metadata(8, 8, 1), (8, 8), Some((0.0, 0.0, f64::INFINITY, 4.0)), None);
    assert_eq!(infinite, Err(BufferViewError::InvalidViewport));
    let hidden = translate(metadata(8, 8, 1), (8, 8), None, Some((0, 4)));
    assert_eq!(hidden, Err(BufferViewError::InvalidViewport));
    let outside = translate(metadata(4, 8, 1), (8, 8), None, None);
    assert_eq!(outside, Err(BufferViewError::UnrepresentableViewport));
    let large = metadata(u32::MAX, 1, 1);
    assert_eq!(checked_buffer_extent(large), Err(BufferViewError::WidthTooLarge));
    assert_eq!(
        checked_buffer_extent(metadata(1, u32::MAX, 1)),
        Err(BufferViewError::HeightTooLarge)
    );
    assert_eq!(
        checked_buffer_extent(metadata(1, 1, u32::MAX)),
        Err(BufferViewError::ScaleTooLarge)
    );
    let extent = checked_buffer_extent(metadata(3, 2, 1)).expect("in range");
    assert_eq!((extent.width, extent.height, extent.scale), (3, 2, 1));
    let rotated = SurfaceBufferMetadata { normal_transform: false, ..large };
    assert_eq!(
        checked_buffer_extent(rotated),
        Err(BufferViewError::UnsupportedTransform)
    );
}

#[test]
fn nested_output_metrics_preserve_physical_mode_and_fractional_scale() {
    let metrics = NestedOutputMetrics::new(1200, 800, double(1.25)).expect("valid output metrics");
    assert_eq!((metrics.mode().width, metrics.mode().height), (1200, 800));
    assert_eq!(metrics.scale_factor(), double(1.25));
    assert_eq!(metrics.mode().refresh, 60_000);
    assert_eq!((metrics.physical_width(), metrics.physical_height()), (1200, 800));
}

#[test]
fn nested_output_metrics_reject_invalid_values() {
    assert!(NestedOutputMetrics::new(0, 800, double(1.25)).is_err());
    assert!(NestedOutputMetrics::new(1200, 800, double(0.0)).is_err());
    assert!(NestedOutputMetrics::new(1200, 800, double(f64::NAN)).is_err());
    let refused = |width, height, scale: f64| {
        NestedOutputMetrics::new(width, height, double(scale)).map(|_| ()).unwrap_err()
    };
    assert_eq!(refused(1, 0, 1.0), OutputMetricsError::ZeroSize);
    assert_eq!(refused(1, 1, -1.0), OutputMetricsError::InvalidScale);
    assert_eq!(refused(1, 1, f64::INFINITY), OutputMetricsError::InvalidScale);
    assert_eq!(refused(u32::MAX, 1, 1.0), OutputMetricsError::WidthTooLarge);
    assert_eq!(refused(1, u32::MAX, 1.0), OutputMetricsError::HeightTooLarge);
}

/// The modes of an output, with the current and preferred one first.
fn installed(modes: &mut Vec<OutputMode>, change: Option<MetricsChange>) {
    let change = change.expect("the metrics differ");
    modes.retain(|mode| *mode != change.install);
    modes.insert(0, change.install);
    if let Some(retired) = change.retire {
        modes.retain(|mode| *mode != retired);
    }
}

#[test]
fn replacing_nested_metrics_keeps_one_current_preferred_mode() {
    let initial = NestedOutputMetrics::new(1200, 800, double(1.25)).unwrap();
    let resized = NestedOutputMetrics::new(1300, 900, double(1.25)).unwrap();
    let resized_again = NestedOutputMetrics::new(1400, 1000, double(1.25)).unwrap();
    let scale_only = NestedOutputMetrics::new(1400, 1000, double(1.5)).unwrap();
    let mut modes = vec![initial.mode()];

    installed(&mut modes, replace_metrics(initial, resized));
    installed(&mut modes, replace_metrics(resized, resized_again));
    assert_eq!(modes, [resized_again.mode()]);

    installed(&mut modes, replace_metrics(resized_again, scale_only));
    assert_eq!(modes, [scale_only.mode()]);
    assert_eq!(replace_metrics(scale_only, scale_only), None);
}

fn scroll(source: RawScrollSource, phase: RawScrollPhase) -> RawScrollFrame {
    RawScrollFrame {
        source,
        phase,
        horizontal: double(0.0),
        vertical: double(0.0),
        horizontal_v120: None,
        vertical_v120: None,
        horizontal_stop: false,
        vertical_stop: false,
    }
}

#[test]
fn server_skips_empty_axis_frames() {
    let frame = RawScrollFrame {
        horizontal_v120: Some(0),
        ..scroll(RawScrollSource::Wheel, RawScrollPhase::Moved)
    };
    assert!(axis_frame(frame, 1).is_none());
}

#[test]
fn seat_skips_empty_axis_frames() {
    let frame = RawScrollFrame {
        horizontal_v120: Some(0),
        ..scroll(RawScrollSource::Wheel, RawScrollPhase::Moved)
    };
    assert!(axis_frame(frame, 1).is_none());
    let negative_zero = RawScrollFrame { vertical: double(-0.0), ..frame };
    assert!(axis_frame(negative_zero, 1).is_none());
}

#[test]
fn preserves_stop_only_finger_frames() {
    let frame = RawScrollFrame {
        vertical_stop: true,
        ..scroll(RawScrollSource::Finger, RawScrollPhase::Ended)
    };
    assert!(axis_frame(frame, 1).is_some());
}

#[test]
fn axis_frames_hold_only_what_is_there() {
    let frame = RawScrollFrame {
        horizontal: double(2.5),
        vertical_v120: Some(-120),
        horizontal_v120: Some(0),
        ..scroll(RawScrollSource::Wheel, RawScrollPhase::Moved)
    };
    let sent = axis_frame(frame, 9).expect("something to send");
    assert_eq!(sent.source, RawScrollSource::Wheel);
    assert_eq!(sent.time, 9);
    assert_eq!(sent.horizontal, Some(double(2.5)));
    assert_eq!(sent.vertical, None);
    assert_eq!(sent.horizontal_v120, None);
    assert_eq!(sent.vertical_v120, Some(-120));
    assert!(!sent.horizontal_stop && !sent.vertical_stop);
    assert_eq!(protocol_keycode(LinuxKeycode(30)), Some(38));
    assert_eq!(protocol_keycode(LinuxKeycode(u32::MAX - 7)), None);
}

#[test]
fn focus_requests_apply_immediately_without_a_grab() {
    let surface = SurfaceId::new(1);
    let mut pending = Some(None);

    assert_eq!(
        transition_pending_focus(&mut pending, false, FocusTransition::Request(Some(surface)),),
        Some(Some(surface)),
    );
    assert_eq!(pending, None);
}

#[test]
fn grabbed_focus_requests_queue_with_last_request_winning() {
    let first = SurfaceId::new(1);
    let second = SurfaceId::new(2);
    let mut pending = None;

    assert_eq!(
        transition_pending_focus(&mut pending, true, FocusTransition::Request(Some(first)),),
        None,
    );
    assert_eq!(pending, Some(Some(first)));
    assert_eq!(
        transition_pending_focus(&mut pending, true, FocusTransition::Request(Some(second)),),
        None,
    );
    assert_eq!(pending, Some(Some(second)));
}

#[test]
fn queued_focus_applies_once_after_the_grab_ends() {
    let surface = SurfaceId::new(1);
    let mut pending = Some(Some(surface));

    assert_eq!(
        transition_pending_focus(&mut pending, true, FocusTransition::PointerDelivered,),
        None,
    );
    assert_eq!(pending, Some(Some(surface)));
    assert_eq!(
        transition_pending_focus(&mut pending, false, FocusTransition::PointerDelivered,),
        Some(Some(surface)),
    );
    assert_eq!(pending, None);
    assert_eq!(
        transition_pending_focus(&mut pending, false, FocusTransition::PointerDelivered,),
        None,
    );
}

#[test]
fn host_focus_loss_discards_a_queued_focus_request() {
    let mut pending = Some(Some(SurfaceId::new(1)));

    assert_eq!(
        transition_pending_focus(&mut pending, false, FocusTransition::HostFocusLost,),
        None,
    );
    assert_eq!(pending, None);
}

#[test]
fn focus_moves_between_living_windows_only() {
    let first = SurfaceId::new(1);
    let second = SurfaceId::new(2);
    let mut focused = None;
    assert_eq!(
        apply_toplevel_focus(&mut focused, Some(first), FocusCandidate::Alive, false),
        Some(FocusPlan { deactivate: None, activate: Some(first), keyboard: Some(first) })
    );
    for candidate in [FocusCandidate::Unknown, FocusCandidate::Dead] {
        assert_eq!(
            apply_toplevel_focus(&mut focused, Some(second), candidate, true),
            None
        );
        assert_eq!(focused, Some(first));
    }
    assert_eq!(
        apply_toplevel_focus(&mut focused, Some(first), FocusCandidate::Alive, true),
        Some(FocusPlan { deactivate: None, activate: None, keyboard: Some(first) })
    );
    assert_eq!(
        apply_toplevel_focus(&mut focused, Some(second), FocusCandidate::Alive, true),
        Some(FocusPlan {
            deactivate: Some(first),
            activate: Some(second),
            keyboard: Some(second)
        })
    );
    assert_eq!(
        apply_toplevel_focus(&mut focused, None, FocusCandidate::Unknown, false),
        Some(FocusPlan { deactivate: None, activate: None, keyboard: None })
    );
    assert_eq!(focused, None);
}

#[test]
fn interactions_answer_a_press_on_a_self_decorated_window() {
    let accepted = InteractionContext {
        own_pointer: true,
        grab_matches: true,
        same_client: true,
        window: Some(SurfaceId::new(4)),
        decoration: WindowDecoration::ClientSide,
    };
    let plan = begin_pointer_interaction(
        accepted,
        PointerInteraction::Resize(WindowResizeEdge::TopLeft),
    )
    .expect("accepted");
    assert_eq!(plan.surface, SurfaceId::new(4));
    assert_eq!(
        plan.request,
        WindowInteractionRequestKind::Resize { edges: WindowResizeEdge::TopLeft }
    );
    assert!(plan.stage_resizing);
    let plan = begin_pointer_interaction(accepted, PointerInteraction::Move).expect("accepted");
    assert_eq!(plan.request, WindowInteractionRequestKind::Move);
    assert!(!plan.stage_resizing);
    for refused in [
        InteractionContext { own_pointer: false, ..accepted },
        InteractionContext { grab_matches: false, ..accepted },
        InteractionContext { same_client: false, ..accepted },
        InteractionContext { window: None, ..accepted },
        InteractionContext { decoration: WindowDecoration::ServerSide, ..accepted },
    ] {
        assert_eq!(begin_pointer_interaction(refused, PointerInteraction::Move), None);
    }
    assert!(!grab_ends(&vec![272, 273], 273));
    assert!(grab_ends(&vec![272], 273));
    assert!(sends_configure(true, true));
    assert!(!sends_configure(true, false));
    assert!(!sends_configure(false, true));
}

#[test]
fn held_buttons_are_released_once() {
    let mut pressed = PressedButtons::new();
    pressed.deliver(272, ButtonState::Pressed);
    pressed.deliver(273, ButtonState::Pressed);
    pressed.deliver(272, ButtonState::Pressed);
    pressed.deliver(274, ButtonState::Released);
    pressed.deliver(273, ButtonState::Released);
    pressed.deliver(275, ButtonState::Pressed);
    let mut released = pressed.take();
    released.sort_unstable();
    assert_eq!(released, [272, 275]);
    assert!(pressed.take().is_empty());
}

#[test]
fn mapped_clients_keep_frame_callbacks_flowing_after_import_failure() {
    assert!(should_drain_callbacks(true, false));
    assert!(!should_drain_callbacks(false, true));
}

#[test]
fn indexed_store_keeps_multiple_values_and_removes_only_the_target() {
    let mut store = IndexedStore::<u32, &'static str>::default();
    let first = SurfaceId::new(1);
    let second = SurfaceId::new(2);
    assert!(store.insert(first, 10, "first"));
    assert!(store.insert(second, 20, "second"));
    assert_eq!(store.id_for_key(&10), Some(first));
    assert_eq!(store.id_for_key(&20), Some(second));

    assert_eq!(store.remove_by_key(&10), Some((first, "first")));
    assert_eq!(store.get(second), Some(&"second"));
    assert_eq!(store.id_for_key(&20), Some(second));
    assert_eq!(store.remove_by_key(&10), None);
    assert_eq!(store.get(first), None);
}

#[test]
fn indexed_store_rejects_duplicate_ids_and_keys() {
    let mut store = IndexedStore::<u32, &'static str>::default();
    let first = SurfaceId::new(1);
    assert!(store.insert(first, 10, "first"));
    assert!(!store.insert(first, 20, "duplicate id"));
    assert!(!store.insert(SurfaceId::new(2), 10, "duplicate key"));
}

#[test]
fn surface_ids_exhaust_without_wrapping() {
    let mut next = Some(u64::MAX);
    assert_eq!(
        allocate_surface_id(&mut next),
        Some(SurfaceId::new(u64::MAX))
    );
    assert_eq!(next, None);
    assert_eq!(allocate_surface_id(&mut next), None);
}

#[test]
fn decoration_requests_are_answered_after_the_first_configuration() {
    assert_eq!(
        decoration_reply(DecorationRequest::Created, false),
        DecorationReply::Silent
    );
    assert_eq!(
        decoration_reply(DecorationRequest::Created, true),
        DecorationReply::Pending
    );
    assert_eq!(
        decoration_reply(DecorationRequest::ModeRequested, true),
        DecorationReply::Configure
    );
    assert_eq!(
        decoration_reply(DecorationRequest::ModeUnset, true),
        DecorationReply::Configure
    );
}

fn effect(event: SeatInputEffectKind) -> SeatInputEffect {
    SeatInputEffect::new(event, 17)
}

fn button(code: u32, state: ButtonState) -> SeatInputEffect {
    effect(SeatInputEffectKind::PointerButton {
        position: InputPosition::new(double(3.0), double(4.0)),
        target: None,
        button: LinuxButtonCode(code),
        state,
    })
}

#[test]
fn seats_release_what_they_delivered() {
    let both = SeatDevices {
        pointer: true,
        keyboard: true,
    };
    let mut seat = SeatState::new();
    seat.apply_input_effect(button(272, ButtonState::Pressed), both);
    seat.apply_input_effect(button(273, ButtonState::Pressed), both);
    assert!(matches!(
        seat.apply_input_effect(button(272, ButtonState::Released), both),
        Delivery::Button { button: 272, state: ButtonState::Released, time: 17, .. }
    ));
    assert_eq!(seat.request_focus(Some(SurfaceId::new(1)), true), None);
    assert_eq!(seat.retry_pending_focus(true), None);
    match seat.apply_input_effect(effect(SeatInputEffectKind::HostFocusLost), both) {
        Delivery::Release { buttons, position, time } => {
            assert_eq!(buttons, [273]);
            assert_eq!(position, InputPosition::new(double(3.0), double(4.0)));
            assert_eq!(time, 17);
        }
        other => panic!("unexpected {other:?}"),
    }
    assert_eq!(seat.retry_pending_focus(false), None);
    assert!(matches!(
        seat.apply_input_effect(effect(SeatInputEffectKind::HostFocusLost), both),
        Delivery::Release { buttons, .. } if buttons.is_empty()
    ));
    assert_eq!(seat.request_focus(None, true), None);
    assert_eq!(seat.retry_pending_focus(false), Some(None));
}

#[test]
fn effects_need_their_device() {
    let none = SeatDevices {
        pointer: false,
        keyboard: false,
    };
    let both = SeatDevices {
        pointer: true,
        keyboard: true,
    };
    let mut seat = SeatState::new();
    let moved = effect(SeatInputEffectKind::PointerMotion {
        position: InputPosition::new(double(1.0), double(2.0)),
        target: None,
    });
    assert!(matches!(seat.apply_input_effect(moved, none), Delivery::Nothing));
    assert_eq!(seat.pointer_position, InputPosition::default());
    assert!(matches!(
        seat.apply_input_effect(moved, both),
        Delivery::Motion { target: None, .. }
    ));
    assert_eq!(seat.pointer_position, InputPosition::new(double(1.0), double(2.0)));
    let key = |keycode| {
        effect(SeatInputEffectKind::Keyboard {
            keycode: LinuxKeycode(keycode),
            state: ButtonState::Pressed,
        })
    };
    assert!(matches!(
        seat.apply_input_effect(key(30), both),
        Delivery::Key { code: 38, state: ButtonState::Pressed, time: 17 }
    ));
    assert!(matches!(seat.apply_input_effect(key(u32::MAX), both), Delivery::Nothing));
    assert!(matches!(seat.apply_input_effect(key(30), none), Delivery::Nothing));
    let axis = |vertical_stop| {
        effect(SeatInputEffectKind::PointerAxis {
            axis: RawScrollFrame {
                vertical_stop,
                ..scroll(RawScrollSource::Finger, RawScrollPhase::Ended)
            },
        })
    };
    assert!(matches!(seat.apply_input_effect(axis(false), both), Delivery::Nothing));
    assert!(matches!(seat.apply_input_effect(axis(true), both), Delivery::Axis(_)));
    assert!(matches!(seat.apply_input_effect(axis(true), none), Delivery::Nothing));
    seat.apply_input_effect(button(272, ButtonState::Pressed), both);
    assert!(matches!(
        seat.apply_input_effect(effect(SeatInputEffectKind::HostFocusLost), none),
        Delivery::Release { buttons, .. } if buttons.is_empty()
    ));
}

#[test]
fn surfaces_lose_the_focus_they_hold() {
    let clearing = clear_input_focus_for_surface(4, Some(4), Some(5));
    assert!(clearing.pointer && !clearing.keyboard);
    let clearing = clear_input_focus_for_surface(4, None, Some(4));
    assert!(!clearing.pointer && clearing.keyboard);
    assert_eq!(
        pointer_focus_tree(Some(true), Some(true)),
        Some(FocusTree::Toplevel)
    );
    assert_eq!(
        pointer_focus_tree(Some(false), Some(true)),
        Some(FocusTree::Popup)
    );
    assert_eq!(pointer_focus_tree(None, Some(false)), None);
    assert!(press_moves_keyboard_focus(ButtonState::Pressed, false));
    assert!(!press_moves_keyboard_focus(ButtonState::Pressed, true));
    assert!(!press_moves_keyboard_focus(ButtonState::Released, false));
    let mut window = SingleWindow::new();
    let shown = window.new_toplevel(1).expect("an id").created;
    assert!(window.takes_pointer(shown, true));
    assert!(!window.takes_pointer(shown, false));
    assert!(!window.takes_pointer(SurfaceId::new(99), true));
}
