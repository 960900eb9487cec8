use weldwm::direct_loop::{ConnectorEvent, DirectLoop, PRESENTER_SHUTDOWN_DEADLINE};
use weldwm::drm::{
    adapter_matches_device, output_size, preferred_or_first, select_adapter, select_connector,
    select_display_mode, select_plane, select_surface_format, AdapterNodes, DisplayMode,
    DisplayPlane, ModeError, OutputSize, OutputSizeError, ScannedConnector, SurfaceConfigError,
};
use weldwm::page_flip::{
    CrtcEvent, FrameSizeMismatch, OutputLost, PageFlipLoop, PresentOutcome, PresentedFrame,
    SwapError, SwapStatus,
};
use weldwm::presenter::{FrameOutcome, PresenterCommand, PresenterEvent};
use weldwm::runtime::{CaptureEnd, PendingCapture};
use weldwm::shell::CompositionTargetId;

#[test]
fn adapters_are_found_by_either_node() {
    let render_only = AdapterNodes {
        primary: None,
        render: Some((226, 128)),
    };
    let both = AdapterNodes {
        primary: Some((226, 0)),
        render: Some((226, 128)),
    };
    assert!(adapter_matches_device(&render_only, 226, 128));
    assert!(!adapter_matches_device(&render_only, 226, 0));
    assert!(!adapter_matches_device(&both, 226, 1));
    let adapters = vec![render_only, both, both];
    assert_eq!(select_adapter(&adapters, 226, 0), Some(1));
    assert_eq!(select_adapter(&adapters, 1, 0), None);
    assert_eq!(select_adapter(&vec![], 226, 0), None);
}

#[test]
fn marked_entries_come_before_the_first() {
    assert_eq!(preferred_or_first(&vec![false, true, true]), Some(1));
    assert_eq!(preferred_or_first(&vec![false, false]), Some(0));
    assert_eq!(preferred_or_first(&vec![]), None);
}

#[test]
fn connectors_need_a_crtc_and_a_mode() {
    let usable = ScannedConnector {
        connected: true,
        has_crtc: true,
        modes: 2,
    };
    let scan = vec![
        ScannedConnector { connected: false, ..usable },
        ScannedConnector { has_crtc: false, ..usable },
        ScannedConnector { modes: 0, ..usable },
        usable,
        usable,
    ];
    assert_eq!(select_connector(&scan), Some(3));
    assert_eq!(select_connector(&scan[..3].to_vec()), None);
}

#[test]
fn modes_are_chosen_by_size_then_refresh() {
    let mode = |width, height, refresh_millihertz| DisplayMode {
        width,
        height,
        refresh_millihertz,
    };
    let modes = vec![
        mode(1280, 720, 60_000),
        mode(1920, 1080, 50_000),
        mode(1920, 1080, 59_940),
        mode(1920, 1080, 60_060),
    ];
    assert_eq!(select_display_mode(&modes, 1920, 1080, 60_000), Ok(2));
    assert_eq!(select_display_mode(&modes, 1920, 1080, 60_050), Ok(3));
    assert_eq!(select_display_mode(&modes, 1280, 720, 61_000), Ok(0));
    assert_eq!(
        select_display_mode(&modes, 1280, 720, 61_001),
        Err(ModeError::RefreshDiffers(1_001))
    );
    assert_eq!(
        select_display_mode(&modes, 800, 600, 60_000),
        Err(ModeError::NoMatchingSize)
    );
}

#[test]
fn planes_have_to_be_free_and_supported() {
    let plane = |current_display, supported: Option<&[u64]>| DisplayPlane {
        current_display,
        supported_displays: supported.map(<[u64]>::to_vec),
    };
    let planes = vec![
        plane(Some(9), Some(&[7, 9])),
        plane(None, Some(&[9])),
        plane(None, None),
        plane(Some(7), Some(&[7])),
        plane(None, Some(&[7])),
    ];
    assert_eq!(select_plane(&planes, 7), Some(3));
    assert_eq!(select_plane(&planes, 9), Some(0));
    assert_eq!(select_plane(&planes, 8), None);
}

#[test]
fn surfaces_need_srgb_and_fifo() {
    assert_eq!(select_surface_format(&vec![false, true, true], true), Ok(1));
    assert_eq!(
        select_surface_format(&vec![false, true], false),
        Err(SurfaceConfigError::NoFifoPresentation)
    );
    assert_eq!(
        select_surface_format(&vec![false], false),
        Err(SurfaceConfigError::NoSrgbFormat)
    );
}

#[test]
fn output_sizes_are_checked() {
    assert_eq!(
        output_size(1920, 1080, Some((600, 340))),
        Ok(OutputSize {
            width: 1920,
            height: 1080,
            physical_width: 600,
            physical_height: 340,
        })
    );
    assert_eq!(
        output_size(1, 1, None).map(|size| (size.physical_width, size.physical_height)),
        Ok((0, 0))
    );
    assert_eq!(output_size(-1, -1, None), Err(OutputSizeError::NegativeWidth));
    assert_eq!(output_size(1, -1, None), Err(OutputSizeError::NegativeHeight));
    assert_eq!(
        output_size(1, 1, Some((u32::MAX, u32::MAX))),
        Err(OutputSizeError::PhysicalWidthTooLarge)
    );
    assert_eq!(
        output_size(1, 1, Some((1, u32::MAX))),
        Err(OutputSizeError::PhysicalHeightTooLarge)
    );
}

fn direct() -> DirectLoop<&'static str> {
    DirectLoop::new(5, 40, 60_000, false, None)
}

#[test]
fn scans_only_count_for_the_selected_connector() {
    let mut state = direct();
    assert!(state.watches(5));
    assert!(!state.watches(6));
    let commands = state.connectors_changed(&vec![
        ConnectorEvent::Disconnected { connector: 41 },
        ConnectorEvent::Disconnected { connector: 40 },
    ]);
    assert_eq!(commands, [PresenterCommand::Suspend]);
    assert!(!state.monitor.connected);
    assert!(!state.presenter.active);
    let epoch = state.presenter.epoch;
    let commands = state.connectors_changed(&vec![ConnectorEvent::Connected { connector: 40 }]);
    assert_eq!(commands, [PresenterCommand::Configure { epoch: epoch + 1 }]);
    assert!(state.presenter.active);

    let commands = state.connectors_changed(&vec![
        ConnectorEvent::Changed { connector: 40 },
        ConnectorEvent::Connected { connector: 40 },
    ]);
    assert_eq!(commands, [PresenterCommand::Suspend]);
    assert!(state.monitor.connected);
    assert!(!state.monitor.mode_compatible);
    assert!(!state.presenter.active);
    assert_eq!(state.session_activated(), None);
}

#[test]
fn sessions_and_terminals_suspend_the_presenter() {
    let mut state = direct();
    assert_eq!(state.session_paused(), PresenterCommand::Suspend);
    assert!(!state.session_active && state.input_pending);
    let epoch = state.presenter.epoch;
    assert_eq!(
        state.session_activated(),
        Some(PresenterCommand::Configure { epoch: epoch + 1 })
    );
    assert_eq!(state.begin_terminal_switch(), PresenterCommand::Suspend);
    assert!(matches!(
        state.terminal_switched(false),
        Some(PresenterCommand::Configure { .. })
    ));
    state.begin_terminal_switch();
    assert_eq!(state.terminal_switched(true), None);
    assert!(!state.session_active);
    assert_eq!(state.device_removed(9), None);
    assert_eq!(state.device_removed(5), Some(PresenterCommand::Suspend));
    assert!(!state.monitor.connected);
    assert_eq!(state.session_activated(), None);
}

#[test]
fn iterations_compose_then_offer() {
    let mut state = direct();
    state.begin_iteration();
    assert!(!state.input_pending);
    state.input_received();
    let work = state.plan_work(0);
    assert!(work.advance_main && work.composition_advance);
    state.main_advanced(work, true, true);
    assert_eq!(state.composition_target(), CompositionTargetId::First);
    assert!(state.composed(100, true, false).is_none());
    assert!(!state.frame.dirty);
    assert_eq!(state.frame.next_composition, Some(100 + 16_666_666));

    assert!(state.offer(CompositionTargetId::First, "first", true).is_none());
    let ready = PresenterEvent::Ready { epoch: state.presenter.epoch };
    let (ticket, payload) = state.presenter_event(&ready, true).expect("a frame waits");
    assert_eq!(payload, "first");
    assert_eq!(state.composition_target(), CompositionTargetId::Second);
    assert!(!state.finish_iteration());
    assert!(state.frame.dirty);

    state.clients_progressed(false, true);
    state.composed(200, false, false);
    assert!(state.offer(CompositionTargetId::Second, "second", true).is_none());
    let released = PresenterEvent::FrameReleased {
        ticket,
        outcome: FrameOutcome::Presented,
    };
    let (_, payload) = state.presenter_event(&released, true).expect("the next frame");
    assert_eq!(payload, "second");
    state.request_exit(false);
    assert!(!state.exit);
    state.request_exit(true);
    assert!(state.exit);
    assert_eq!(state.begin_shutdown(), Some(PresenterCommand::Shutdown));
    assert_eq!(state.begin_shutdown(), None);
    let deadline = 10 + PRESENTER_SHUTDOWN_DEADLINE;
    assert_eq!(state.shutdown_wait(10, deadline), Some(PRESENTER_SHUTDOWN_DEADLINE));
    assert_eq!(state.shutdown_wait(deadline, deadline), None);
    state.presenter_event(&PresenterEvent::Stopped, true);
    assert_eq!(state.shutdown_wait(10, deadline), None);
}

#[test]
fn cursors_are_shown_without_composing() {
    let mut state = direct();
    state.composed(0, false, false);
    state.offer(CompositionTargetId::First, "frame", true);
    assert!(!state.finish_iteration());
    let work = state.plan_work(1);
    assert!(!work.composition_advance);
    state.main_advanced(work, false, true);
    assert!(state.finish_iteration());
    state.session_paused();
    assert!(!state.finish_iteration());
}

#[test]
fn startup_screenshots_end_the_program() {
    let capture = PendingCapture::startup("a.png".to_owned(), true, 50);
    let mut state: DirectLoop<()> = DirectLoop::new(1, 1, 0, false, Some(capture));
    assert_eq!(state.dispatch_timeout(20), Some(0));
    assert!(state.composed(0, false, false).is_none());
    assert_eq!(state.dispatch_timeout(20), Some(30));
    let taken = state.composed(30, false, true).expect("a client is shown");
    assert!(matches!(state.settle_capture(taken, Ok(())), CaptureEnd::Exit));
    assert!(state.exit);
    assert_eq!(state.dispatch_timeout(40), None);

    state.accept_capture(PendingCapture::remote(4, "b.png".to_owned(), 90));
    assert!(state.frame.dirty);
    assert!(state.expire_capture(89).is_none());
    match state.expire_capture(90).expect("overdue") {
        CaptureEnd::Reply { request_id, result } => {
            assert_eq!(request_id, 4);
            assert_eq!(
                result,
                Err("screenshot timed out before a composition was available".to_owned())
            );
        }
        _ => panic!("remote requests are answered"),
    }
    assert!(state.capture.is_none());
}

fn flipping() -> PageFlipLoop {
    PageFlipLoop::new(3, 30, false, None)
}

fn compose(state: &mut PageFlipLoop, id: u64, pixels: [u8; 4]) {
    let mut target = vec![0; 4];
    state
        .composed(0, false, id, &mut target, &pixels.to_vec())
        .expect("the sizes match");
    assert_eq!(target, pixels);
}

#[test]
fn flips_are_queued_one_at_a_time() {
    let mut state = flipping();
    assert!(!state.should_queue());
    compose(&mut state, 8, [1, 2, 3, 4]);
    assert!(state.pixels.is_empty());
    assert!(state.should_queue());
    let frame = state.queueable_frame();
    assert_eq!(
        frame,
        PresentedFrame {
            sequence: 1,
            presentation_id: 8,
        }
    );
    assert_eq!(
        state.queue_frame(SwapStatus::NoFreeSlots, SwapStatus::Done),
        Ok(PresentOutcome::Retry)
    );
    assert!(state.should_queue());
    assert_eq!(
        state.queue_frame(SwapStatus::Done, SwapStatus::Done),
        Ok(PresentOutcome::Queued(1))
    );
    assert!(state.frame_pending && !state.should_queue());
    state.clients_progressed(false, true);
    assert!(!state.should_queue());
    assert!(state.retires_frame(30));
    assert!(!state.retires_frame(31));
    let done = state.frame_submitted(Some(frame));
    assert_eq!(done.presentation_id, Some(8));
    assert!(done.capture.is_none());
    assert!(state.should_queue());
    assert_eq!(
        state.queue_frame(SwapStatus::EmptyFrame, SwapStatus::Done),
        Ok(PresentOutcome::Empty)
    );
    assert!(!state.should_queue());
    assert_eq!(
        state.queue_frame(SwapStatus::Fatal, SwapStatus::Fatal),
        Err(SwapError::Render)
    );
    assert_eq!(
        state.queue_frame(SwapStatus::Done, SwapStatus::Fatal),
        Err(SwapError::Queue)
    );
    assert_eq!(
        state.queue_frame(SwapStatus::Done, SwapStatus::TemporaryFailure),
        Ok(PresentOutcome::Retry)
    );
    assert_eq!(state.frame_submitted(None).presentation_id, None);
}

#[test]
fn frames_of_another_size_are_refused() {
    let mut state = flipping();
    let mut target = vec![0; 8];
    assert_eq!(
        state.composed(0, false, 1, &mut target, &vec![1; 4]),
        Err(FrameSizeMismatch { frame: 8, pixels: 4 })
    );
    assert_eq!(target, [0; 8]);
    assert!(state.frame.dirty);
}

#[test]
fn screenshots_wait_for_their_flip() {
    let mut state = flipping();
    assert!(state.can_capture());
    state.accept_capture(PendingCapture::remote(6, "c.png".to_owned(), 100));
    assert!(!state.can_capture());
    compose(&mut state, 1, [9, 9, 9, 9]);
    assert_eq!(state.pixels, [9, 9, 9, 9]);
    let frame = state.queueable_frame();
    assert_eq!(
        state.queue_frame(SwapStatus::Done, SwapStatus::Done),
        Ok(PresentOutcome::Queued(1))
    );
    let capture = state.take_capture(false).expect("nothing to wait for");
    assert!(state.capture_written(1, capture, Ok(())).is_none());
    state.clear_capture_pixels();
    assert!(state.pixels.is_empty());
    assert!(!state.can_capture());
    let earlier = PresentedFrame { sequence: 0, ..frame };
    assert!(state.frame_submitted(Some(earlier)).capture.is_none());
    match state.frame_submitted(Some(frame)).capture.expect("shown") {
        CaptureEnd::Reply { request_id, result } => {
            assert_eq!((request_id, result), (6, Ok(())));
        }
        _ => panic!("remote requests are answered"),
    }
    assert!(state.can_capture());

    let startup = PendingCapture::startup("d.png".to_owned(), false, 100);
    match state.capture_written(2, startup, Err("disk".to_owned())) {
        Some(CaptureEnd::Fail(error)) => assert_eq!(error, "disk"),
        _ => panic!("a failed startup screenshot fails the program"),
    }
}

#[test]
fn late_flips_are_given_up() {
    let mut state = flipping();
    let remote = |id| PendingCapture::remote(id, "e.png".to_owned(), 100);
    state.accept_capture(remote(1));
    assert!(state.expire_capture(99).is_none());
    let reply = |end: Option<CaptureEnd>| match end {
        Some(CaptureEnd::Reply { result, .. }) => result.unwrap_err(),
        _ => panic!("remote requests are answered"),
    };
    assert_eq!(
        reply(state.expire_capture(100)),
        "screenshot timed out before DRM presentation"
    );
    assert!(state.capture_written(1, remote(2), Ok(())).is_none());
    assert!(state.expire_flip_capture(99).is_none());
    assert_eq!(
        reply(state.expire_flip_capture(100)),
        "screenshot timed out waiting for a DRM page flip"
    );
    assert!(state.can_capture());
}

#[test]
fn lost_outputs_end_the_flip_loop() {
    let mut state = flipping();
    assert!(state.watches(3));
    let other = CrtcEvent::Disconnected { crtc: Some(31) };
    let unbound = CrtcEvent::Disconnected { crtc: None };
    let changed = CrtcEvent::Changed { crtc: Some(30) };
    let connected = CrtcEvent::Connected { crtc: Some(30) };
    assert_eq!(
        state.connectors_changed(&vec![other, unbound, changed, connected]),
        Ok(())
    );
    assert_eq!(
        state.connectors_changed(&vec![other, CrtcEvent::Disconnected { crtc: Some(30) }]),
        Err(OutputLost::Disconnected)
    );
    assert_eq!(state.device_removed(4), Ok(()));
    assert_eq!(state.device_removed(3), Err(OutputLost::DeviceRemoved));

    compose(&mut state, 1, [0; 4]);
    state.begin_iteration();
    state.session_paused();
    assert!(state.input_pending && !state.should_queue());
    let work = state.plan_work(u64::MAX);
    assert!(work.advance_main && !work.composition_advance);
    state.main_advanced(work, true);
    assert!(state.frame.dirty);
    assert_eq!(state.dispatch_timeout(0), 16_666_666);
    state.session_activated();
    assert!(state.frame.unpresented);
    state.input_received();
    state.request_exit(true);
    assert!(state.exit);
    state.finish_iteration();
    assert!(state.frame.dirty);
}
