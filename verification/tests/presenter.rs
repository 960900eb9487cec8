use weldwm::presenter::{
    frame_is_current, present_step, step_outcome, DeferralCount, FrameOutcome, FrameQueue,
    FrameTicket, PresentStep, PresenterCommand, PresenterEvent, PresenterHandle, SurfaceStatus,
    MAX_CONSECUTIVE_DEFERRED_FRAMES, PRESENTER_GENERATION,
};
use weldwm::shell::{host_composition_target, CompositionTargetId, CompositionTargets};

#[test]
fn blocked_presenter_keeps_only_the_latest_host_frame() {
    let mut frames = FrameQueue::new();
    let first = frames
        .offer(1, 1, CompositionTargetId::First, "first", true)
        .expect("idle queue should submit its first frame");
    assert!(
        frames
            .offer(1, 1, CompositionTargetId::Second, "older", false)
            .is_none()
    );
    assert!(
        frames
            .offer(1, 1, CompositionTargetId::Second, "latest", false)
            .is_none()
    );

    assert!(frames.release(first.0, FrameOutcome::Presented, 1));
    let next = frames
        .take_pending()
        .expect("latest coalesced frame should become available");
    assert_eq!(next.1, "latest");
    assert_eq!(next.0.target, CompositionTargetId::Second);
}

#[test]
fn stale_result_cannot_release_current_target_ownership() {
    let mut frames = FrameQueue::new();
    let current = frames
        .offer(1, 4, CompositionTargetId::First, (), true)
        .expect("idle queue should submit its first frame");
    let stale = FrameTicket {
        frame_id: current.0.frame_id.saturating_add(1),
        ..current.0
    };

    assert!(!frames.release(stale, FrameOutcome::Presented, 4));
    assert_eq!(
        frames.in_flight.as_ref().map(|(ticket, _)| *ticket),
        Some(current.0)
    );
}

#[test]
fn frame_identifiers_saturate() {
    let mut frames = FrameQueue::new();
    frames.next_frame_id = u64::MAX;
    let last = frames
        .offer(1, 1, CompositionTargetId::First, 'a', true)
        .expect("idle queue");
    assert_eq!(last.0.frame_id, u64::MAX);
    assert_eq!(frames.next_frame_id, u64::MAX);
}

#[test]
fn deferred_frames_wait_again_under_the_current_epoch() {
    let mut frames = FrameQueue::new();
    let sent = frames
        .offer(1, 4, CompositionTargetId::Second, 'a', true)
        .expect("idle queue");
    assert!(frames.release(sent.0, FrameOutcome::Deferred, 7));
    let again = frames.take_pending().expect("the frame waits");
    assert_eq!(again.0, FrameTicket { epoch: 7, ..sent.0 });
    assert_eq!(again.1, 'a');
    assert!(frames.take_pending().is_none());

    // A newer frame takes the place of the one that is given back.
    assert!(frames
        .offer(1, 7, CompositionTargetId::First, 'b', true)
        .is_none());
    assert!(frames.release(again.0, FrameOutcome::Interrupted, 7));
    assert_eq!(frames.take_pending().expect("newer frame").1, 'b');
    frames.clear();
    assert!(frames.in_flight.is_none() && frames.pending.is_none());
}

#[test]
fn frames_that_cannot_be_sent_are_kept() {
    let mut handle = PresenterHandle::new();
    assert!(handle
        .handle_event(&PresenterEvent::Ready { epoch: 1 }, true)
        .is_none());
    let frame = handle
        .offer(CompositionTargetId::First, 5_u8, true)
        .expect("ready worker");
    assert_eq!(frame.0.generation, PRESENTER_GENERATION);
    assert_eq!(handle.in_flight_target(), Some(CompositionTargetId::First));
    handle.frame_not_sent(frame);
    assert!(!handle.ready);
    assert_eq!(handle.in_flight_target(), None);
    assert_eq!(handle.frames.pending.as_ref().map(|frame| frame.1), Some(5));
}

#[test]
fn a_presenter_becomes_ready_only_for_its_epoch() {
    let mut handle = PresenterHandle::new();
    assert!(handle.offer(CompositionTargetId::First, 'a', true).is_none());
    assert_eq!(handle.suspend(), PresenterCommand::Suspend);
    assert_eq!(handle.activate(), PresenterCommand::Configure { epoch: 3 });
    assert!(handle
        .handle_event(&PresenterEvent::Ready { epoch: 1 }, true)
        .is_none());
    assert!(!handle.ready);
    let frame = handle
        .handle_event(&PresenterEvent::Ready { epoch: 3 }, true)
        .expect("the waiting frame is submitted");
    assert_eq!(frame.1, 'a');
    assert!(handle.ready);

    // A worker that is gone gets nothing.
    let mut stopped = PresenterHandle::new();
    assert!(stopped.offer(CompositionTargetId::First, 'a', true).is_none());
    assert!(stopped
        .handle_event(&PresenterEvent::Ready { epoch: 1 }, false)
        .is_none());
}

#[test]
fn released_frames_make_room_for_the_next_one() {
    let mut handle = PresenterHandle::new();
    handle.handle_event(&PresenterEvent::Ready { epoch: 1 }, true);
    let first = handle
        .offer(CompositionTargetId::First, 1, true)
        .expect("ready");
    assert!(handle.offer(CompositionTargetId::Second, 2, true).is_none());
    let stale = FrameTicket { frame_id: 9, ..first.0 };
    assert!(handle
        .handle_event(
            &PresenterEvent::FrameReleased { ticket: stale, outcome: FrameOutcome::Presented },
            true
        )
        .is_none());
    let second = handle
        .handle_event(
            &PresenterEvent::FrameReleased { ticket: first.0, outcome: FrameOutcome::Presented },
            true,
        )
        .expect("the waiting frame");
    assert_eq!(second.1, 2);
    // An unavailable output stops the hand-over.
    assert!(handle.offer(CompositionTargetId::First, 3, true).is_none());
    assert!(handle
        .handle_event(
            &PresenterEvent::FrameReleased { ticket: second.0, outcome: FrameOutcome::Unavailable },
            true
        )
        .is_none());
    assert!(!handle.ready);
    assert_eq!(handle.frames.pending.as_ref().map(|frame| frame.1), Some(3));
}

#[test]
fn lost_and_stopped_workers_drop_their_frames() {
    for (event, stopped) in [
        (PresenterEvent::DeviceLost("gone".to_owned()), false),
        (PresenterEvent::Stopped, true),
    ] {
        let mut handle = PresenterHandle::new();
        handle.handle_event(&PresenterEvent::Ready { epoch: 1 }, true);
        handle.offer(CompositionTargetId::First, 1, true);
        handle.offer(CompositionTargetId::Second, 2, true);
        handle.handle_event(&event, true);
        assert!(handle.frames.in_flight.is_none() && handle.frames.pending.is_none());
        assert!(!handle.ready);
        assert_eq!(handle.stopped(), stopped);
    }
    let mut handle: PresenterHandle<u8> = PresenterHandle::new();
    handle.handle_event(&PresenterEvent::Ready { epoch: 1 }, true);
    handle.handle_event(&PresenterEvent::UncapturedError("text".to_owned()), true);
    assert!(handle.ready);
    handle.handle_event(&PresenterEvent::OutputUnavailable("text".to_owned()), true);
    assert!(!handle.ready);
}

#[test]
fn shutdown_is_requested_once() {
    let mut handle: PresenterHandle<u8> = PresenterHandle::new();
    assert_eq!(handle.begin_shutdown(), Some(PresenterCommand::Shutdown));
    assert!(!handle.active);
    assert_eq!(handle.epoch, 2);
    assert_eq!(handle.begin_shutdown(), None);
    assert_eq!(handle.epoch, 2);
}

#[test]
fn suspension_makes_the_frame_in_flight_out_of_date() {
    let mut handle = PresenterHandle::new();
    handle.handle_event(&PresenterEvent::Ready { epoch: 1 }, true);
    let frame = handle
        .offer(CompositionTargetId::First, (), true)
        .expect("ready");
    assert!(frame_is_current(handle.active, handle.epoch, &frame.0));
    handle.suspend();
    assert!(!frame_is_current(handle.active, handle.epoch, &frame.0));
    assert!(!frame_is_current(true, handle.epoch, &frame.0));
}

#[test]
fn surface_states_decide_what_becomes_of_a_frame() {
    let steps = [
        (SurfaceStatus::Success, PresentStep::Draw { reconfigure_after: false }),
        (SurfaceStatus::Suboptimal, PresentStep::Draw { reconfigure_after: true }),
        (SurfaceStatus::Timeout, PresentStep::Finish(FrameOutcome::Deferred)),
        (SurfaceStatus::Occluded, PresentStep::Finish(FrameOutcome::Deferred)),
        (SurfaceStatus::Outdated, PresentStep::Reconfigure),
        (SurfaceStatus::Lost, PresentStep::Finish(FrameOutcome::Unavailable)),
        (SurfaceStatus::Validation, PresentStep::Finish(FrameOutcome::Unavailable)),
    ];
    for (status, step) in steps {
        assert_eq!(present_step(true, status), step);
        assert_eq!(
            present_step(false, status),
            PresentStep::Finish(FrameOutcome::Interrupted)
        );
    }
    assert_eq!(step_outcome(PresentStep::Reconfigure, true), FrameOutcome::Deferred);
    assert_eq!(step_outcome(PresentStep::Reconfigure, false), FrameOutcome::Unavailable);
    let draw = PresentStep::Draw { reconfigure_after: true };
    assert_eq!(step_outcome(draw, true), FrameOutcome::Presented);
    assert_eq!(step_outcome(draw, false), FrameOutcome::Unavailable);
    assert_eq!(
        step_outcome(PresentStep::Draw { reconfigure_after: false }, false),
        FrameOutcome::Presented
    );
    assert_eq!(
        step_outcome(PresentStep::Finish(FrameOutcome::Interrupted), true),
        FrameOutcome::Interrupted
    );
}

#[test]
fn too_many_deferred_frames_make_the_output_unavailable() {
    let mut count = DeferralCount::new();
    for _ in 1..MAX_CONSECUTIVE_DEFERRED_FRAMES {
        let report = count.frame_finished(FrameOutcome::Deferred);
        assert_eq!(report.outcome, FrameOutcome::Deferred);
        assert!(report.unavailable.is_none());
    }
    let report = count.frame_finished(FrameOutcome::Deferred);
    assert_eq!(report.outcome, FrameOutcome::Unavailable);
    assert_eq!(
        report.unavailable.as_deref(),
        Some("direct DRM surface deferred 3 consecutive frames")
    );
    assert_eq!(count.frames, 0);

    count.frame_finished(FrameOutcome::Deferred);
    count.frame_finished(FrameOutcome::Presented);
    assert_eq!(count.frames, 0);
    count.frame_finished(FrameOutcome::Deferred);
    let report = count.frame_finished(FrameOutcome::Unavailable);
    assert_eq!(report.unavailable.as_deref(), Some("direct DRM surface is unavailable"));
    assert_eq!(count.frames, 1);
    assert!(matches!(
        count.surface_configured(true, 5),
        PresenterEvent::Ready { epoch: 5 }
    ));
    assert_eq!(count.frames, 0);
    match count.surface_configured(false, 6) {
        PresenterEvent::OutputUnavailable(message) => {
            assert_eq!(message, "direct DRM surface reconfiguration failed")
        }
        _ => panic!("reconfiguration failed"),
    }
}

#[test]
fn the_host_never_composes_into_the_target_being_read() {
    assert_eq!(host_composition_target(None), CompositionTargetId::First);
    assert_eq!(
        host_composition_target(Some(CompositionTargetId::First)),
        CompositionTargetId::Second
    );
    assert_eq!(
        host_composition_target(Some(CompositionTargetId::Second)),
        CompositionTargetId::First
    );
    let mut targets = CompositionTargets::new();
    targets.render_composition_to(CompositionTargetId::Second);
    assert_eq!(targets.completed, CompositionTargetId::Second);
    assert_eq!(targets.render_composition(), CompositionTargetId::First);
    targets.render_composition_to(CompositionTargetId::Second);
    targets.resize();
    assert_eq!(targets.completed, CompositionTargetId::First);
}

#[test]
fn workers_report_their_first_configuration() {
    assert!(matches!(
        DeferralCount::worker_started(true, 4),
        PresenterEvent::Ready { epoch: 4 }
    ));
    match DeferralCount::worker_started(false, 4) {
        PresenterEvent::OutputUnavailable(reason) => {
            assert_eq!(reason, "initial direct DRM surface configuration failed");
        }
        _ => panic!("the surface is unavailable"),
    }
}
