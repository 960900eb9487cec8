use weldwm::nested::{
    dispatch_timeout, host_work_drained, nonzero_size, HostUpdate, NestedHost, NestedLoop,
    PhysicalSize, WindowChange,
};
use weldwm::number::Real64;
use weldwm::renderer::FrameResult;
use weldwm::runtime::{
    complete_capture, iteration_work, CaptureEnd, FrameState, IterationWork, PendingCapture,
    FRAME_INTERVAL,
};

const NOW: u64 = 1_000_000_000;

fn double(value: f64) -> Real64 {
    Real64::new(value.to_bits())
}

#[test]
fn input_or_resize_work_gets_one_nonblocking_smithay_dispatch() {
    let frame = FrameState::default();
    let now = NOW;
    assert_eq!(
        dispatch_timeout(host_work_drained(true, false, false), &frame, now),
        0
    );
    assert_eq!(
        dispatch_timeout(host_work_drained(false, true, false), &frame, now),
        0
    );
    assert_eq!(
        dispatch_timeout(host_work_drained(false, false, true), &frame, now),
        0
    );
}

#[test]
fn iterations_without_input_or_resize_keep_the_idle_timeout() {
    let now = NOW;
    let mut frame = FrameState::default();
    frame.composition_rendered(now);
    frame.presented();
    assert_eq!(
        dispatch_timeout(host_work_drained(false, false, false), &frame, now),
        FRAME_INTERVAL
    );
}

#[test]
fn iteration_work_pairs_every_composition_with_one_main_advance() {
    assert_eq!(
        iteration_work(false, true, false, true),
        IterationWork {
            advance_main: true,
            composition_advance: true,
        }
    );
    assert_eq!(
        iteration_work(true, false, false, true),
        IterationWork {
            advance_main: true,
            composition_advance: false,
        }
    );
    assert_eq!(
        iteration_work(false, false, true, true),
        IterationWork {
            advance_main: true,
            composition_advance: true,
        }
    );
    assert_eq!(
        iteration_work(false, false, false, true),
        IterationWork {
            advance_main: false,
            composition_advance: false,
        }
    );
    assert_eq!(
        iteration_work(false, true, true, false),
        IterationWork {
            advance_main: false,
            composition_advance: false,
        }
    );
}

#[test]
fn initial_frame_requires_composition_and_presentation() {
    let frame = FrameState::default();

    assert!(frame.composition_dirty());
    assert!(frame.present_needed());
}

#[test]
fn host_redraw_reuses_the_cached_composition() {
    let now = NOW;
    let mut frame = FrameState::default();
    frame.composition_rendered(now);
    frame.presented();

    frame.request_present();

    assert!(!frame.composition_dirty());
    assert!(frame.present_needed());
}

#[test]
fn rendered_composition_remains_pending_until_presented() {
    let now = NOW;
    let mut frame = FrameState::default();

    frame.composition_rendered(now);

    assert!(!frame.composition_dirty());
    assert!(frame.present_needed());
    assert!(frame.presentation_due());
}

#[test]
fn presentation_waits_for_the_dirty_composition() {
    let now = NOW;
    let mut frame = FrameState::default();

    assert!(frame.present_needed());
    assert!(!frame.presentation_due());

    frame.composition_rendered(now);

    assert!(frame.presentation_due());
}

#[test]
fn next_frame_request_survives_presenting_the_current_composition() {
    let now = NOW;
    let mut frame = FrameState::default();
    frame.composition_rendered(now);

    assert!(frame.presentation_due());
    frame.presented();
    frame.request_composition();

    assert!(frame.composition_dirty());
    assert!(!frame.present_needed());
    assert!(!frame.presentation_due());
}

#[test]
fn successful_presentation_clears_only_the_pending_present() {
    let now = NOW;
    let mut frame = FrameState::default();
    frame.composition_rendered(now);

    frame.presented();
    assert!(!frame.composition_dirty());
    assert!(!frame.present_needed());

    frame.request_composition();
    assert!(frame.composition_dirty());
    assert!(!frame.present_needed());
}

#[test]
fn dirty_compositions_wait_for_the_next_frame_deadline() {
    let start = NOW;
    let mut frame = FrameState::default();
    frame.composition_rendered(start);
    frame.presented();
    frame.request_composition();
    let before_deadline = start + FRAME_INTERVAL / 2;

    assert!(!frame.composition_due(before_deadline));
    assert_eq!(
        dispatch_timeout(false, &frame, before_deadline),
        FRAME_INTERVAL / 2
    );
    assert!(frame.composition_due(start + FRAME_INTERVAL));
    assert_eq!(
        dispatch_timeout(false, &frame, start + FRAME_INTERVAL),
        0
    );
}

#[test]
fn refresh_rates_set_the_interval() {
    let frame = FrameState::default();
    assert_eq!(frame.with_refresh_millihertz(60_000).interval, 16_666_666);
    assert_eq!(frame.with_refresh_millihertz(50_000).interval, 20_000_000);
    assert_eq!(frame.with_refresh_millihertz(0), frame);
}

#[test]
fn only_a_demand_for_composition_wakes_a_sleeping_loop() {
    let mut frame = FrameState::default();
    assert_eq!(frame.composition_demand_timeout(NOW), Some(0));
    frame.composition_rendered(NOW);
    assert_eq!(frame.composition_demand_timeout(NOW), None);
    frame.request_composition();
    assert_eq!(frame.composition_demand_timeout(NOW), Some(FRAME_INTERVAL));
    assert_eq!(frame.composition_timeout(NOW, false), FRAME_INTERVAL);
    assert!(frame.composition_due(NOW + FRAME_INTERVAL));
    frame.composition_rendered(u64::MAX);
    assert_eq!(frame.next_composition, Some(u64::MAX));
}

#[test]
fn captures_wait_for_a_client_and_give_up_in_time() {
    let startup = PendingCapture::startup("shot.png".to_owned(), true, 50);
    assert!(startup.is_startup());
    assert!(!startup.is_ready(false));
    assert!(startup.is_ready(true));
    assert!(!startup.is_overdue(49));
    assert!(startup.is_overdue(50));
    let remote = PendingCapture::remote(7, "shot.png".to_owned(), 50);
    assert!(!remote.is_startup());
    assert!(remote.is_ready(false));
    match complete_capture(remote, Err("no".to_owned())) {
        CaptureEnd::Reply { request_id: 7, result: Err(error) } => assert_eq!(error, "no"),
        _ => panic!("remote captures are answered"),
    }
    assert!(matches!(complete_capture(startup, Ok(())), CaptureEnd::Exit));
    let failed = PendingCapture::startup("shot.png".to_owned(), false, 0);
    match complete_capture(failed, Err("no".to_owned())) {
        CaptureEnd::Fail(error) => assert_eq!(error, "no"),
        _ => panic!("startup captures end the program"),
    }
}

fn size(width: u32, height: u32) -> PhysicalSize {
    PhysicalSize { width, height }
}

#[test]
fn sizes_have_no_empty_side() {
    assert_eq!(nonzero_size(size(0, 7)), size(1, 7));
    assert_eq!(nonzero_size(size(3, 0)), size(3, 1));
}

#[test]
fn a_window_is_created_once() {
    let mut host = NestedHost::new();
    assert!(host.should_create_window());
    host.refresh_scale_factor(double(2.0));
    assert_eq!(host.pending_scale_factor, None);
    host.window_created(Some((size(960, 640), double(1.5))));
    assert!(!host.should_create_window());
    assert_eq!(host.pending_size, Some(size(960, 640)));
    assert_eq!(host.pending_scale_factor, Some(double(1.5)));
    let mut failed = NestedHost::new();
    failed.window_created(None);
    assert!(!failed.should_create_window());
    assert!(!failed.has_window);
}

#[test]
fn host_changes_reach_the_output_once() {
    let mut host = NestedHost::new();
    host.window_created(Some((size(960, 640), double(1.0))));
    let mut nested = NestedLoop::new(size(960, 640), double(1.0), false, None);
    nested.composed(NOW, false, 1);
    assert_eq!(
        nested.take_host_work(&mut host, false),
        HostUpdate { work_drained: true, resize: None, rescale: None }
    );
    assert!(!nested.frame.composition_dirty());

    // A minimised window has work but no new size.
    host.window_changed(WindowChange::Resized(size(0, 640)));
    let update = nested.take_host_work(&mut host, false);
    assert_eq!(update.resize, None);
    assert!(update.work_drained);

    host.window_changed(WindowChange::Resized(size(1280, 720)));
    host.window_changed(WindowChange::ScaleFactorChanged(double(2.0)));
    let update = nested.take_host_work(&mut host, false);
    assert_eq!(update.resize, Some(size(1280, 720)));
    assert_eq!(update.rescale, Some(double(2.0)));
    assert!(nested.frame.composition_dirty());
    assert_eq!(nested.size, size(1280, 720));
    assert!(!nested.take_host_work(&mut host, false).work_drained);

    // Both zeros are the same number.
    host.refresh_scale_factor(double(2.0));
    assert_eq!(host.pending_scale_factor, None);
    host.refresh_scale_factor(double(3.0));
    assert_eq!(host.pending_scale_factor, Some(double(3.0)));
    host.window_changed(WindowChange::CloseRequested);
    assert!(host.close_requested);
}

#[test]
fn a_host_redraw_shows_the_composition_again() {
    let mut host = NestedHost::new();
    let mut nested = NestedLoop::new(size(1, 1), double(1.0), false, None);
    nested.composed(NOW, false, 1);
    let end = nested.rendered(FrameResult { presented: true, capture: None });
    assert_eq!(end.presentation_id, Some(1));
    assert!(!nested.should_render());
    host.window_changed(WindowChange::RedrawRequested);
    nested.take_host_work(&mut host, false);
    assert!(nested.should_render());
    assert!(!host.redraw_requested);
    // Its callbacks were answered already.
    let end = nested.rendered(FrameResult { presented: true, capture: None });
    assert_eq!(end.presentation_id, None);
}

#[test]
fn redraws_during_a_composition_are_for_the_next_one() {
    let mut nested = NestedLoop::new(size(1, 1), double(1.0), false, None);
    let work = nested.plan_work(false, NOW);
    assert!(work.composition_advance && work.advance_main);
    nested.main_advanced(work, true);
    nested.composed(NOW, true, 9);
    assert!(nested.should_render());
    nested.rendered(FrameResult::not_presented());
    assert_eq!(nested.presentation_id, Some(9));
    nested.finish_iteration();
    assert!(!nested.should_render());
    assert!(nested.frame.composition_dirty());
    // Before the deadline nothing but input advances.
    assert!(!nested.plan_work(false, NOW).advance_main);
    let work = nested.plan_work(true, NOW);
    assert!(work.advance_main && !work.composition_advance);
    let mut idle = NestedLoop::new(size(1, 1), double(1.0), false, None);
    idle.composed(NOW, false, 1);
    idle.main_advanced(work, true);
    assert!(idle.frame.composition_dirty());
    idle.clients_progressed(false, true);
    assert!(idle.frame.present_needed());
    idle.clients_progressed(true, false);
    assert!(idle.frame.composition_dirty());
}

#[test]
fn screenshots_of_the_nested_window() {
    let mut nested = NestedLoop::new(
        size(1, 1),
        double(1.0),
        false,
        Some(PendingCapture::startup("a.png".to_owned(), true, NOW)),
    );
    assert!(!nested.may_exit());
    assert!(!nested.prepare_capture(false));
    assert!(nested.prepare_capture(true));
    match nested.expire_capture(NOW) {
        Some(CaptureEnd::Fail(error)) => assert_eq!(
            error,
            "startup screenshot timed out before a presentable frame was available"
        ),
        _ => panic!("overdue"),
    }
    assert!(nested.may_exit());
    nested.accept_capture(PendingCapture::remote(4, "b.png".to_owned(), NOW + 1));
    assert!(nested.may_exit());
    assert!(nested.expire_capture(NOW).is_none());
    let end = nested.rendered(FrameResult { presented: false, capture: Some(Ok(())) });
    assert!(matches!(
        end.capture,
        Some(CaptureEnd::Reply { request_id: 4, result: Ok(()) })
    ));
    nested.accept_capture(PendingCapture::remote(5, "b.png".to_owned(), NOW));
    match nested.expire_capture(NOW) {
        Some(CaptureEnd::Reply { request_id: 5, result: Err(error) }) => assert_eq!(
            error,
            "screenshot timed out before a presentable frame was available"
        ),
        _ => panic!("overdue"),
    }
}
