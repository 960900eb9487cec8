//! Decisions of the loop that reads compositions back and shows them by page
//! flips.
//!
//! One flip is under way at a time. A screenshot is written when its frame is
//! queued and reported once the screen shows that frame.

use vstd::prelude::*;

use crate::runtime::{
    complete_capture, expire_capture, iteration_work, take_ready_capture, CaptureEnd, FrameState,
    IterationWork, PendingCapture,
};
#[allow(unused_imports)]
use crate::runtime::{timed_out, work_due};

verus! {

/// A frame that was queued for a flip.
#[derive(Clone, Copy, Debug, PartialEq, Eq, Structural)]
pub struct PresentedFrame {
    pub sequence: u64,
    pub presentation_id: u64,
}

/// What came of an attempt to queue a frame.
#[derive(Clone, Copy, Debug, PartialEq, Eq, Structural)]
pub enum PresentOutcome {
    Queued(u64),
    /// Nothing on the screen would change.
    Empty,
    /// The frame is to be queued again later.
    Retry,
}

/// What the display system answers to a request to draw or queue a frame.
#[derive(Clone, Copy, Debug, PartialEq, Eq, Structural)]
pub enum SwapStatus {
    Done,
    EmptyFrame,
    NoFreeSlots,
    TemporaryFailure,
    /// The frame was already swapped, the context was lost, or drawing failed.
    Fatal,
}

/// The first of the two requests that fails for good.
#[derive(Clone, Copy, Debug, PartialEq, Eq, Structural)]
pub enum SwapError {
    Render,
    Queue,
}

/// What a scan found out about a connector on a CRTC.
#[derive(Clone, Copy, Debug, PartialEq, Eq, Structural)]
pub enum CrtcEvent {
    Connected { crtc: Option<u32> },
    Disconnected { crtc: Option<u32> },
    Changed { crtc: Option<u32> },
}

/// Why the loop cannot go on.
#[derive(Clone, Copy, Debug, PartialEq, Eq, Structural)]
pub enum OutputLost {
    Disconnected,
    DeviceRemoved,
}

/// The loop's state between two of its steps.
pub struct PageFlipLoop {
    pub frame: FrameState,
    pub device: u64,
    pub crtc: u32,
    pub session_active: bool,
    pub remote_debug: bool,
    /// A flip is under way.
    pub frame_pending: bool,
    pub next_sequence: u64,
    /// The presentation that the pixels at hand belong to.
    pub presentation_id: u64,
    /// A screenshot that waits for a frame.
    pub capture: Option<PendingCapture>,
    /// A screenshot that was written and waits for its frame to be shown.
    pub flip_capture: Option<(u64, PendingCapture)>,
    /// The pixels that a waiting screenshot is written from.
    pub pixels: Vec<u8>,
    pub input_pending: bool,
    pub next_composition: bool,
    pub exit: bool,
}

/// What a flip that was completed brought about.
pub struct FlipDone {
    /// The presentation to report to the clients.
    pub presentation_id: Option<u64>,
    /// The screenshot that is now shown.
    pub capture: Option<CaptureEnd>,
}

/// The result of drawing and queueing in turn, `sequence` being the number
/// that a queued frame gets.
pub open spec fn swap_outcome(render: SwapStatus, queue: SwapStatus, sequence: u64) -> Result<
    PresentOutcome,
    SwapError,
> {
    match render {
        SwapStatus::EmptyFrame => Ok(PresentOutcome::Empty),
        SwapStatus::NoFreeSlots | SwapStatus::TemporaryFailure => Ok(PresentOutcome::Retry),
        SwapStatus::Fatal => Err(SwapError::Render),
        SwapStatus::Done => match queue {
            SwapStatus::Done => Ok(PresentOutcome::Queued(sequence)),
            SwapStatus::EmptyFrame => Ok(PresentOutcome::Empty),
            SwapStatus::NoFreeSlots | SwapStatus::TemporaryFailure => Ok(PresentOutcome::Retry),
            SwapStatus::Fatal => Err(SwapError::Queue),
        },
    }
}

/// A composition does not have the size of the frame it is to be shown in.
#[derive(Clone, Copy, Debug, PartialEq, Eq, Structural)]
pub struct FrameSizeMismatch {
    pub frame: usize,
    pub pixels: usize,
}

/// Makes `target` a copy of `pixels`.
fn copy_pixels(target: &mut Vec<u8>, pixels: &Vec<u8>)
    ensures
        final(target)@ == pixels@,
{
    target.clear();
    let mut i: usize = 0;
    while i < pixels.len()
        invariant
            i <= pixels@.len(),
            target@ == pixels@.take(i as int),
        decreases pixels@.len() - i,
    {
        target.push(pixels[i]);
        assert(target@ =~= pixels@.take(i + 1));
        i = i + 1;
    }
    assert(pixels@.take(i as int) =~= pixels@);
}

/// A finding says that the connector of `crtc` was disconnected.
pub open spec fn loses(event: CrtcEvent, crtc: u32) -> bool {
    event == (CrtcEvent::Disconnected { crtc: Some(crtc) })
}

impl PageFlipLoop {
    /// A loop that is about to start.
    pub fn new(device: u64, crtc: u32, remote_debug: bool, capture: Option<PendingCapture>) -> (state: Self)
        ensures
            state.frame.dirty && state.frame.unpresented && state.frame.next_composition is None,
            state.frame.interval == crate::runtime::FRAME_INTERVAL,
            state.device == device,
            state.crtc == crtc,
            state.session_active,
            state.remote_debug == remote_debug,
            !state.frame_pending,
            state.next_sequence == 1,
            state.presentation_id == 0,
            state.capture == capture,
            state.flip_capture is None,
            state.pixels@.len() == 0,
            !state.input_pending && !state.next_composition && !state.exit,
    {
        PageFlipLoop {
            frame: FrameState::default(),
            device,
            crtc,
            session_active: true,
            remote_debug,
            frame_pending: false,
            next_sequence: 1,
            presentation_id: 0,
            capture,
            flip_capture: None,
            pixels: Vec::new(),
            input_pending: false,
            next_composition: false,
            exit: false,
        }
    }

    /// How long the loop may sleep.
    pub fn dispatch_timeout(&self, now: u64) -> (timeout: u64)
        ensures
            timeout == (if self.frame.dirty && self.session_active {
                self.frame.time_left(now)
            } else {
                self.frame.interval
            }),
    {
        self.frame.composition_timeout(now, self.session_active)
    }

    /// Starts an iteration: no input has come in yet.
    pub fn begin_iteration(&mut self)
        ensures
            *final(self) == (PageFlipLoop {
                input_pending: false,
                next_composition: false,
                ..*old(self)
            }),
    {
        self.input_pending = false;
        self.next_composition = false;
    }

    /// Takes note of an input event.
    pub fn input_received(&mut self)
        ensures
            *final(self) == (PageFlipLoop { input_pending: true, ..*old(self) }),
    {
        self.input_pending = true;
    }

    /// Whether a vertical blank of `crtc` ends the flip under way, so that its
    /// frame is to be retired.
    pub fn retires_frame(&self, crtc: u32) -> (retires: bool)
        ensures
            retires == (crtc == self.crtc),
    {
        crtc == self.crtc
    }

    /// A flip is done and `frame` was retired. The screenshot of that very
    /// frame is settled; one of another frame goes on waiting.
    pub fn frame_submitted(&mut self, frame: Option<PresentedFrame>) -> (done: FlipDone)
        ensures
            ({
                let shown = frame is Some && old(self).flip_capture is Some && (old(
                    self,
                ).flip_capture->0).0 == frame->0.sequence;
                &&& done.presentation_id == (match frame {
                    Some(frame) => Some(frame.presentation_id),
                    None => None,
                })
                &&& (done.capture is Some) == shown
                &&& shown ==> done.capture->0.settles((old(self).flip_capture->0).1, Ok(()))
                &&& *final(self) == (PageFlipLoop {
                    frame_pending: false,
                    flip_capture: if shown {
                        None
                    } else {
                        old(self).flip_capture
                    },
                    exit: old(self).exit || (shown && (old(
                        self,
                    ).flip_capture->0).1.remote_request_id is None),
                    ..*old(self)
                })
            }),
    {
        self.frame_pending = false;
        let frame = match frame {
            Some(frame) => frame,
            None => {
                return FlipDone { presentation_id: None, capture: None };
            },
        };
        let capture = match self.flip_capture.take() {
            Some((sequence, capture)) => {
                if sequence == frame.sequence {
                    let end = complete_capture(capture, Ok(()));
                    if matches!(end, CaptureEnd::Exit) {
                        self.exit = true;
                    }
                    Some(end)
                } else {
                    self.flip_capture = Some((sequence, capture));
                    None
                }
            },
            None => None,
        };
        FlipDone { presentation_id: Some(frame.presentation_id), capture }
    }

    /// The session went to another terminal: the flip under way is lost, and
    /// the loss of focus that goes with it is input.
    pub fn session_paused(&mut self)
        ensures
            *final(self) == (PageFlipLoop {
                session_active: false,
                frame_pending: false,
                input_pending: true,
                ..*old(self)
            }),
    {
        self.session_active = false;
        self.frame_pending = false;
        self.input_pending = true;
    }

    /// The session came back and the output was reset: everything is drawn and
    /// shown anew.
    pub fn session_activated(&mut self)
        ensures
            *final(self) == (PageFlipLoop {
                session_active: true,
                frame: FrameState { dirty: true, unpresented: true, ..old(self).frame },
                ..*old(self)
            }),
    {
        self.session_active = true;
        self.frame.request_composition();
        self.frame.request_present();
    }

    /// Whether a change or loss of `device` is one of the selected device.
    pub fn watches(&self, device: u64) -> (watched: bool)
        ensures
            watched == (device == self.device),
    {
        device == self.device
    }

    /// Takes in a scan of the selected device: the loop cannot go on without
    /// its connector.
    pub fn connectors_changed(&self, events: &Vec<CrtcEvent>) -> (result: Result<(), OutputLost>)
        ensures
            result == (if exists|i: int|
                0 <= i < events@.len() && loses(#[trigger] events@[i], self.crtc) {
                Err::<(), _>(OutputLost::Disconnected)
            } else {
                Ok(())
            }),
    {
        let mut i: usize = 0;
        while i < events.len()
            invariant
                i <= events@.len(),
                forall|j: int| 0 <= j < i ==> !loses(#[trigger] events@[j], self.crtc),
            decreases events@.len() - i,
        {
            if let CrtcEvent::Disconnected { crtc: Some(crtc) } = events[i] {
                if crtc == self.crtc {
                    assert(loses(events@[i as int], self.crtc));
                    return Err(OutputLost::Disconnected);
                }
            }
            i = i + 1;
        }
        Ok(())
    }

    /// A device is gone: the loop cannot go on without the selected one.
    pub fn device_removed(&self, device: u64) -> (result: Result<(), OutputLost>)
        ensures
            result == (if device == self.device {
                Err::<(), _>(OutputLost::DeviceRemoved)
            } else {
                Ok(())
            }),
    {
        if device == self.device {
            Err(OutputLost::DeviceRemoved)
        } else {
            Ok(())
        }
    }

    /// Takes in what the clients did: new surface contents ask for a
    /// composition, a request to be told of the next frame for a presentation.
    pub fn clients_progressed(&mut self, surface_events: bool, presentation_requested: bool)
        ensures
            *final(self) == (PageFlipLoop {
                frame: FrameState {
                    dirty: old(self).frame.dirty || surface_events,
                    unpresented: old(self).frame.unpresented || presentation_requested,
                    ..old(self).frame
                },
                ..*old(self)
            }),
    {
        if surface_events {
            self.frame.request_composition();
        }
        if presentation_requested {
            self.frame.request_present();
        }
    }

    /// The work of this iteration. Nothing is composed while the session is
    /// away.
    pub fn plan_work(&self, now: u64) -> (work: IterationWork)
        ensures
            work == work_due(
                self.input_pending,
                self.frame.dirty && self.frame.composable(now),
                self.remote_debug,
                self.session_active,
            ),
    {
        iteration_work(
            self.input_pending,
            self.frame.composition_due(now),
            self.remote_debug,
            self.session_active,
        )
    }

    /// The main world advanced: a redraw that no composition follows asks for
    /// one.
    pub fn main_advanced(&mut self, work: IterationWork, redraw_requested: bool)
        ensures
            *final(self) == (PageFlipLoop {
                frame: FrameState {
                    dirty: old(self).frame.dirty || (redraw_requested && !work.composition_advance),
                    ..old(self).frame
                },
                ..*old(self)
            }),
    {
        if redraw_requested && !work.composition_advance {
            self.frame.request_composition();
        }
    }

    /// Takes in whether a command asked the program to end.
    pub fn request_exit(&mut self, exit: bool)
        ensures
            *final(self) == (PageFlipLoop { exit: old(self).exit || exit, ..*old(self) }),
    {
        if exit {
            self.exit = true;
        }
    }

    /// A composition was rendered and read back as `pixels` for
    /// `presentation_id`: they become the frame to show, and are kept where a
    /// screenshot waits. Pixels of another size than the frame are refused.
    pub fn composed(
        &mut self,
        now: u64,
        redraw_requested: bool,
        presentation_id: u64,
        target: &mut Vec<u8>,
        pixels: &Vec<u8>,
    ) -> (result: Result<(), FrameSizeMismatch>)
        ensures
            old(target)@.len() != pixels@.len() ==> {
                &&& result == Err::<(), _>(
                    FrameSizeMismatch { frame: old(target)@.len() as usize, pixels: pixels@.len() as usize },
                )
                &&& *final(self) == *old(self)
                &&& *final(target) == *old(target)
            },
            old(target)@.len() == pixels@.len() ==> {
                &&& result is Ok
                &&& final(target)@ == pixels@
                &&& final(self).pixels@ == (if old(self).capture is Some {
                    pixels@
                } else {
                    old(self).pixels@
                })
                &&& *final(self) == (PageFlipLoop {
                    frame: FrameState {
                        dirty: false,
                        unpresented: true,
                        next_composition: Some(
                            if now + old(self).frame.interval > u64::MAX {
                                u64::MAX
                            } else {
                                (now + old(self).frame.interval) as u64
                            },
                        ),
                        ..old(self).frame
                    },
                    next_composition: redraw_requested,
                    presentation_id,
                    pixels: final(self).pixels,
                    ..*old(self)
                })
            },
    {
        if target.len() != pixels.len() {
            return Err(FrameSizeMismatch { frame: target.len(), pixels: pixels.len() });
        }
        copy_pixels(target, pixels);
        if self.capture.is_some() {
            copy_pixels(&mut self.pixels, pixels);
        }
        self.presentation_id = presentation_id;
        self.frame.composition_rendered(now);
        self.next_composition = redraw_requested;
        Ok(())
    }

    /// Drops the pixels that were kept for a screenshot.
    pub fn clear_capture_pixels(&mut self)
        ensures
            final(self).pixels@ == Seq::<u8>::empty(),
            *final(self) == (PageFlipLoop { pixels: final(self).pixels, ..*old(self) }),
    {
        self.pixels.clear();
    }

    /// Whether another screenshot can be asked for.
    pub fn can_capture(&self) -> (can: bool)
        ensures
            can == (self.capture is None && self.flip_capture is None),
    {
        self.capture.is_none() && self.flip_capture.is_none()
    }

    /// Accepts a request for a screenshot while none is under way; it is taken
    /// of a new composition.
    pub fn accept_capture(&mut self, capture: PendingCapture)
        requires
            old(self).capture is None,
            old(self).flip_capture is None,
        ensures
            *final(self) == (PageFlipLoop {
                capture: Some(capture),
                frame: FrameState { dirty: true, ..old(self).frame },
                ..*old(self)
            }),
    {
        self.capture = Some(capture);
        self.frame.request_composition();
    }

    /// Gives up on a screenshot that waited too long for a frame.
    pub fn expire_capture(&mut self, now: u64) -> (end: Option<CaptureEnd>)
        ensures
            old(self).capture is Some && old(self).capture->0.deadline <= now ==> {
                &&& end is Some
                &&& timed_out(
                    old(self).capture->0,
                    "screenshot timed out before DRM presentation"@,
                    end->0,
                )
                &&& *final(self) == (PageFlipLoop { capture: None, ..*old(self) })
            },
            !(old(self).capture is Some && old(self).capture->0.deadline <= now) ==> end is None
                && *final(self) == *old(self),
    {
        expire_capture(&mut self.capture, now, "screenshot timed out before DRM presentation")
    }

    /// Gives up on a screenshot whose frame was not shown in time.
    pub fn expire_flip_capture(&mut self, now: u64) -> (end: Option<CaptureEnd>)
        ensures
            old(self).flip_capture is Some && (old(self).flip_capture->0).1.deadline <= now ==> {
                &&& end is Some
                &&& timed_out(
                    (old(self).flip_capture->0).1,
                    "screenshot timed out waiting for a DRM page flip"@,
                    end->0,
                )
                &&& *final(self) == (PageFlipLoop { flip_capture: None, ..*old(self) })
            },
            !(old(self).flip_capture is Some && (old(self).flip_capture->0).1.deadline <= now) ==> end
                is None && *final(self) == *old(self),
    {
        let overdue = match &self.flip_capture {
            Some(waiting) => waiting.1.is_overdue(now),
            None => false,
        };
        if !overdue {
            return None;
        }
        match self.flip_capture.take() {
            Some((_, capture)) => {
                let ghost waiting = capture;
                let error = "screenshot timed out waiting for a DRM page flip".to_owned();
                let end = complete_capture(capture, Err(error));
                assert(end.settles(waiting, Err(error)));
                Some(end)
            },
            None => None,
        }
    }

    /// Whether the composition at hand is to be queued now.
    pub fn should_queue(&self) -> (queue: bool)
        ensures
            queue == (self.session_active && self.frame.unpresented && !self.frame.dirty
                && !self.frame_pending),
    {
        self.session_active && self.frame.presentation_due() && !self.frame_pending
    }

    /// The frame to queue.
    pub fn queueable_frame(&self) -> (frame: PresentedFrame)
        ensures
            frame.sequence == self.next_sequence,
            frame.presentation_id == self.presentation_id,
    {
        PresentedFrame { sequence: self.next_sequence, presentation_id: self.presentation_id }
    }

    /// Takes in what came of drawing the frame and, where that was done, of
    /// queueing it.
    pub fn queue_frame(&mut self, render: SwapStatus, queue: SwapStatus) -> (outcome: Result<
        PresentOutcome,
        SwapError,
    >)
        ensures
            outcome == swap_outcome(render, queue, old(self).next_sequence),
            outcome matches Ok(PresentOutcome::Queued(_)) ==> *final(self) == (PageFlipLoop {
                next_sequence: if old(self).next_sequence == u64::MAX {
                    u64::MAX
                } else {
                    (old(self).next_sequence + 1) as u64
                },
                frame_pending: true,
                frame: FrameState { unpresented: false, ..old(self).frame },
                ..*old(self)
            }),
            outcome == Ok::<_, SwapError>(PresentOutcome::Empty) ==> *final(self) == (PageFlipLoop {
                frame: FrameState { unpresented: false, ..old(self).frame },
                ..*old(self)
            }),
            outcome == Ok::<_, SwapError>(PresentOutcome::Retry) || outcome is Err ==> *final(self)
                == *old(self),
    {
        match render {
            SwapStatus::Done => {},
            SwapStatus::EmptyFrame => {
                self.frame.presented();
                return Ok(PresentOutcome::Empty);
            },
            SwapStatus::NoFreeSlots | SwapStatus::TemporaryFailure => {
                return Ok(PresentOutcome::Retry);
            },
            SwapStatus::Fatal => {
                return Err(SwapError::Render);
            },
        }
        match queue {
            SwapStatus::Done => {
                let sequence: u64 = self.next_sequence;
                self.next_sequence = self.next_sequence.saturating_add(1);
                self.frame_pending = true;
                self.frame.presented();
                Ok(PresentOutcome::Queued(sequence))
            },
            SwapStatus::EmptyFrame => {
                self.frame.presented();
                Ok(PresentOutcome::Empty)
            },
            SwapStatus::NoFreeSlots | SwapStatus::TemporaryFailure => Ok(PresentOutcome::Retry),
            SwapStatus::Fatal => Err(SwapError::Queue),
        }
    }

    /// The screenshot to write of a frame that was just queued.
    pub fn take_capture(&mut self, has_surface_frame: bool) -> (taken: Option<PendingCapture>)
        ensures
            ({
                let ready = old(self).capture is Some && old(self).capture->0.takeable(
                    has_surface_frame,
                );
                &&& taken == (if ready {
                    old(self).capture
                } else {
                    None
                })
                &&& *final(self) == (PageFlipLoop {
                    capture: if ready {
                        None
                    } else {
                        old(self).capture
                    },
                    ..*old(self)
                })
            }),
    {
        take_ready_capture(&mut self.capture, has_surface_frame)
    }

    /// A screenshot of the frame queued as `sequence` was written, or writing
    /// it failed. A written one waits for the frame to be shown.
    pub fn capture_written(
        &mut self,
        sequence: u64,
        capture: PendingCapture,
        result: Result<(), String>,
    ) -> (end: Option<CaptureEnd>)
        ensures
            result is Ok ==> end is None && *final(self) == (PageFlipLoop {
                flip_capture: Some((sequence, capture)),
                ..*old(self)
            }),
            result is Err ==> end is Some && end->0.settles(capture, result) && *final(self) == *old(
                self,
            ),
    {
        match result {
            Ok(()) => {
                self.flip_capture = Some((sequence, capture));
                None
            },
            Err(error) => Some(complete_capture(capture, Err(error))),
        }
    }

    /// Ends an iteration: a redraw requested while the composition was made is
    /// for the next one.
    pub fn finish_iteration(&mut self)
        ensures
            *final(self) == (PageFlipLoop {
                frame: FrameState {
                    dirty: old(self).frame.dirty || old(self).next_composition,
                    ..old(self).frame
                },
                ..*old(self)
            }),
    {
        if self.next_composition {
            self.frame.request_composition();
        }
    }
}

/// A frame that could not be queued for now stays to be presented, and so is
/// tried again; one that was queued or changes nothing is not.
pub proof fn retried_frames_stay_unpresented(render: SwapStatus, queue: SwapStatus, sequence: u64)
    ensures
        swap_outcome(render, queue, sequence) == Ok::<_, SwapError>(PresentOutcome::Retry) <==> {
            let status = if render is Done {
                queue
            } else {
                render
            };
            status is NoFreeSlots || status is TemporaryFailure
        },
        swap_outcome(render, queue, sequence) matches Ok(PresentOutcome::Queued(number)) ==> number
            == sequence && render is Done && queue is Done,
{
}

/// A request that fails for good is blamed on the step that failed, and drawing
/// comes first: what queueing would have answered does not count unless drawing
/// worked. A frame that changes nothing is not queued.
pub proof fn failures_name_their_step(render: SwapStatus, queue: SwapStatus, sequence: u64)
    ensures
        swap_outcome(render, queue, sequence) == Err::<PresentOutcome, _>(SwapError::Render)
            <==> render is Fatal,
        swap_outcome(render, queue, sequence) == Err::<PresentOutcome, _>(SwapError::Queue)
            <==> render is Done && queue is Fatal,
        swap_outcome(render, queue, sequence) == Ok::<_, SwapError>(PresentOutcome::Empty)
            <==> render is EmptyFrame || (render is Done && queue is EmptyFrame),
        swap_outcome(render, queue, sequence) == Ok::<_, SwapError>(
            PresentOutcome::Queued(sequence),
        ) <==> render is Done && queue is Done,
{
}

/// Only the loss of the connector on the output's own CRTC ends the loop.
pub proof fn other_connectors_may_go(event: CrtcEvent, crtc: u32)
    ensures
        event is Connected || event is Changed ==> !loses(event, crtc),
        event matches CrtcEvent::Disconnected { crtc: lost } ==> (loses(event, crtc) <==> lost
            == Some(crtc)),
{
}

/// A frame that was queued is under way and need not be queued again, and the
/// next one gets the next number. A frame that could not be queued for now, or
/// failed, stays as it was.
pub proof fn queued_frames_are_under_way(
    state: &mut PageFlipLoop,
    render: SwapStatus,
    queue: SwapStatus,
    outcome: Result<PresentOutcome, SwapError>,
)
    requires
        call_ensures(PageFlipLoop::queue_frame, (state, render, queue), outcome),
    ensures
        outcome matches Ok(PresentOutcome::Queued(sequence)) ==> {
            &&& render is Done && queue is Done
            &&& sequence == old(state).next_sequence
            &&& final(state).frame_pending && !final(state).frame.unpresented
            &&& sequence < u64::MAX ==> final(state).next_sequence == sequence + 1
            &&& final(state).frame.dirty == old(state).frame.dirty
        },
        outcome == Ok::<_, SwapError>(PresentOutcome::Empty) ==> !final(state).frame.unpresented
            && final(state).frame_pending == old(state).frame_pending && final(state).next_sequence
            == old(state).next_sequence,
        outcome == Ok::<_, SwapError>(PresentOutcome::Retry) || outcome is Err ==> *final(state)
            == *old(state),
{
}

/// A frame is queued only while the session is active, no flip is under way, and
/// there is a frame to show that no newer one is to replace.
pub proof fn frames_are_queued_one_at_a_time(state: &PageFlipLoop, queue: bool)
    requires
        call_ensures(PageFlipLoop::should_queue, (state,), queue),
    ensures
        queue ==> state.session_active && !state.frame_pending && state.frame.unpresented
            && !state.frame.dirty,
        state.session_active && !state.frame_pending && state.frame.unpresented
            && !state.frame.dirty ==> queue,
{
}

/// A flip that is done frees the way for the next one and reports the
/// presentation of its own frame. It settles the screenshot of that very frame
/// and no other.
pub proof fn flips_settle_their_own_screenshot(
    state: &mut PageFlipLoop,
    frame: Option<PresentedFrame>,
    done: FlipDone,
)
    requires
        call_ensures(PageFlipLoop::frame_submitted, (state, frame), done),
    ensures
        !final(state).frame_pending,
        done.presentation_id is Some <==> frame is Some,
        frame matches Some(shown) ==> done.presentation_id == Some(shown.presentation_id),
        done.capture is Some ==> frame is Some && old(state).flip_capture is Some && (old(
            state,
        ).flip_capture->0).0 == (frame->0).sequence && final(state).flip_capture is None,
        done.capture is None ==> final(state).flip_capture == old(state).flip_capture,
        frame is Some && old(state).flip_capture is Some && (old(state).flip_capture->0).0 == (
        frame->0).sequence ==> done.capture is Some,
        final(state).capture == old(state).capture,
{
}

/// A composition of the right size is the frame to show next, under its own
/// presentation; a screenshot that waits is made from just its pixels. One of
/// another size is refused, and nothing changes.
pub proof fn compositions_become_the_frame(
    state: &mut PageFlipLoop,
    now: u64,
    redraw: bool,
    presentation_id: u64,
    target: &mut Vec<u8>,
    pixels: &Vec<u8>,
    result: Result<(), FrameSizeMismatch>,
)
    requires
        call_ensures(
            PageFlipLoop::composed,
            (state, now, redraw, presentation_id, target, pixels),
            result,
        ),
    ensures
        result is Ok <==> old(target)@.len() == pixels@.len(),
        result is Ok ==> {
            &&& final(target)@ == pixels@
            &&& final(state).presentation_id == presentation_id
            &&& final(state).frame.unpresented && !final(state).frame.dirty
            &&& final(state).next_composition == redraw
            &&& old(state).capture is Some ==> final(state).pixels@ == pixels@
        },
        result is Err ==> *final(state) == *old(state) && final(target)@ == old(target)@,
{
}

/// A session that goes away gives up the flip under way, and one that comes back
/// draws and shows everything anew.
pub proof fn sessions_start_over_when_they_return(paused: &mut PageFlipLoop, back: &mut PageFlipLoop)
    requires
        call_ensures(PageFlipLoop::session_paused, (paused,), ()),
        call_ensures(PageFlipLoop::session_activated, (back,), ()),
    ensures
        !final(paused).session_active && !final(paused).frame_pending && final(
            paused).input_pending,
        final(back).session_active && final(back).frame.dirty && final(back).frame.unpresented,
        final(paused).frame == old(paused).frame,
        final(back).frame_pending == old(back).frame_pending,
{
}

/// Whatever clients and the program do asks for a frame and never takes such a
/// request back: what clients commit is composed, what they wait for is shown,
/// and a redraw of the program is composed unless it is the one that advanced for
/// the composition.
pub proof fn changes_ask_for_frames(
    clients: &mut PageFlipLoop,
    surface_events: bool,
    presentation_requested: bool,
    program: &mut PageFlipLoop,
    work: IterationWork,
    redraw: bool,
)
    requires
        call_ensures(
            PageFlipLoop::clients_progressed,
            (clients, surface_events, presentation_requested),
            (),
        ),
        call_ensures(PageFlipLoop::main_advanced, (program, work, redraw), ()),
    ensures
        old(clients).frame.dirty || surface_events ==> final(clients).frame.dirty,
        !old(clients).frame.dirty && final(clients).frame.dirty ==> surface_events,
        old(clients).frame.unpresented || presentation_requested ==> final(
            clients).frame.unpresented,
        !old(clients).frame.unpresented && final(clients).frame.unpresented
            ==> presentation_requested,
        old(program).frame.dirty ==> final(program).frame.dirty,
        redraw && !work.composition_advance ==> final(program).frame.dirty,
        !old(program).frame.dirty && final(program).frame.dirty ==> redraw
            && !work.composition_advance,
        final(program).frame.unpresented == old(program).frame.unpresented,
        final(clients).frame_pending == old(clients).frame_pending,
        final(program).frame_pending == old(program).frame_pending,
{
}

/// One screenshot is taken at a time: while one waits for its composition or its
/// flip no other can be, and one that is accepted asks for its composition.
pub proof fn screenshots_are_taken_one_by_one(
    state: &mut PageFlipLoop,
    capture: PendingCapture,
    after: &PageFlipLoop,
    can: bool,
)
    requires
        old(state).capture is None,
        old(state).flip_capture is None,
        call_ensures(PageFlipLoop::accept_capture, (state, capture), ()),
        *after == *final(state),
        call_ensures(PageFlipLoop::can_capture, (after,), can),
    ensures
        !can,
        final(state).capture == Some(capture) && final(state).frame.dirty,
        final(state).frame.unpresented == old(state).frame.unpresented,
{
}

/// The frame to queue carries the next number and the presentation of the
/// composition that is shown.
pub proof fn queued_frames_carry_their_presentation(state: &PageFlipLoop, frame: PresentedFrame)
    requires
        call_ensures(PageFlipLoop::queueable_frame, (state,), frame),
    ensures
        frame.sequence == state.next_sequence && frame.presentation_id == state.presentation_id,
{
}

} // verus!
