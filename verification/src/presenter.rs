//! Hand-off of finished compositions to the presentation worker.
//!
//! At most one frame is in the worker's hands and at most one waits behind it.
//! A frame is identified by a ticket; the worker names the ticket when it gives
//! the frame back, so that an answer for another frame releases nothing.

use vstd::prelude::*;

use crate::shell::CompositionTargetId;

verus! {

/// Generation that every ticket of this process carries.
pub const PRESENTER_GENERATION: u64 = 1;

/// Deferred frames in a row after which the output counts as unavailable.
pub const MAX_CONSECUTIVE_DEFERRED_FRAMES: u8 = 3;

/// What became of a frame in the worker's hands.
#[derive(Clone, Copy, Debug, PartialEq, Eq, Structural)]
pub enum FrameOutcome {
    Presented,
    Deferred,
    Interrupted,
    Unavailable,
}

/// Identity of one offered frame.
#[derive(Clone, Copy, Debug, PartialEq, Eq, Structural)]
pub struct FrameTicket {
    pub generation: u64,
    pub epoch: u64,
    pub frame_id: u64,
    pub target: CompositionTargetId,
}

/// What the worker reports to the host.
#[derive(Clone, Debug)]
pub enum PresenterEvent {
    Ready { epoch: u64 },
    FrameReleased { ticket: FrameTicket, outcome: FrameOutcome },
    OutputUnavailable(String),
    DeviceLost(String),
    UncapturedError(String),
    Stopped,
}

/// What the host tells the worker besides handing it frames.
#[derive(Clone, Copy, Debug, PartialEq, Eq, Structural)]
pub enum PresenterCommand {
    Configure { epoch: u64 },
    Suspend,
    Shutdown,
}

/// The frame in the worker's hands and the one waiting for it.
pub struct FrameQueue<Payload> {
    pub in_flight: Option<(FrameTicket, Payload)>,
    pub pending: Option<(FrameTicket, Payload)>,
    pub next_frame_id: u64,
}

/// The identifier handed out after `id`; the last one is handed out for ever.
pub open spec fn following_id(id: u64) -> u64 {
    if id == u64::MAX {
        id
    } else {
        (id + 1) as u64
    }
}

/// `first` was offered before `second`, or identifiers have run out.
pub open spec fn offered_before(first: u64, second: u64) -> bool {
    first < second || second == u64::MAX
}

/// Whether a frame that came back with `outcome` is to be presented again.
pub open spec fn worth_another_try(outcome: FrameOutcome) -> bool {
    outcome is Deferred || outcome is Interrupted
}

impl<Payload> FrameQueue<Payload> {
    /// The frame in flight was offered before the one that waits, and both
    /// before the one to come.
    pub open spec fn ordered(&self) -> bool {
        &&& self.in_flight is Some ==> offered_before(
            (self.in_flight->0).0.frame_id,
            self.next_frame_id,
        )
        &&& self.pending is Some ==> offered_before((self.pending->0).0.frame_id, self.next_frame_id)
        &&& self.in_flight is Some && self.pending is Some ==> offered_before(
            (self.in_flight->0).0.frame_id,
            (self.pending->0).0.frame_id,
        )
    }

    /// The ticket of the frame in flight.
    pub open spec fn in_flight_ticket(&self) -> Option<FrameTicket> {
        match self.in_flight {
            Some(frame) => Some(frame.0),
            None => None,
        }
    }

    /// `frame` went into flight: the queue keeps a clone of its payload.
    pub open spec fn launched(&self, frame: (FrameTicket, Payload)) -> bool where Payload: Clone {
        &&& self.in_flight is Some
        &&& (self.in_flight->0).0 == frame.0
        &&& cloned(frame.1, (self.in_flight->0).1)
    }
}

impl<Payload: Clone> FrameQueue<Payload> {
    pub fn new() -> (queue: Self)
        ensures
            queue.in_flight is None,
            queue.pending is None,
            queue.next_frame_id == 1,
            queue.ordered(),
    {
        FrameQueue { in_flight: None, pending: None, next_frame_id: 1 }
    }

    /// Enters a new frame. It goes into flight where that was asked for and
    /// nothing else is in flight; otherwise it replaces the frame that waits.
    pub fn offer(
        &mut self,
        generation: u64,
        epoch: u64,
        target: CompositionTargetId,
        payload: Payload,
        submit_now: bool,
    ) -> (frame: Option<(FrameTicket, Payload)>)
        ensures
            ({
                let ticket = FrameTicket {
                    generation,
                    epoch,
                    frame_id: old(self).next_frame_id,
                    target,
                };
                if submit_now && old(self).in_flight is None {
                    &&& frame == Some((ticket, payload))
                    &&& final(self).launched((ticket, payload))
                    &&& final(self).pending == old(self).pending
                } else {
                    &&& frame is None
                    &&& final(self).in_flight == old(self).in_flight
                    &&& final(self).pending == Some((ticket, payload))
                }
            }),
            final(self).next_frame_id == following_id(old(self).next_frame_id),
            old(self).ordered() && (frame is Some ==> old(self).pending is None)
                ==> final(self).ordered(),
    {
        let ticket = FrameTicket { generation, epoch, frame_id: self.next_frame_id, target };
        self.next_frame_id = self.next_frame_id.saturating_add(1);
        if submit_now && self.in_flight.is_none() {
            self.in_flight = Some((ticket, payload.clone()));
            Some((ticket, payload))
        } else {
            self.pending = Some((ticket, payload));
            None
        }
    }

    /// Takes the frame out of flight that `ticket` names; any other ticket is
    /// refused. A frame that is worth another try waits again, under the
    /// current epoch, unless a newer one already waits.
    pub fn release(&mut self, ticket: FrameTicket, outcome: FrameOutcome, current_epoch: u64) -> (released: bool)
        ensures
            released == (old(self).in_flight_ticket() == Some(ticket)),
            !released ==> *final(self) == *old(self),
            released ==> final(self).in_flight is None && final(self).pending == (if worth_another_try(
                outcome,
            ) && old(self).pending is None {
                Some((FrameTicket { epoch: current_epoch, ..ticket }, (old(self).in_flight->0).1))
            } else {
                old(self).pending
            }),
            final(self).next_frame_id == old(self).next_frame_id,
            old(self).ordered() ==> final(self).ordered(),
    {
        let matching = match &self.in_flight {
            Some(frame) => frame.0 == ticket,
            None => false,
        };
        if !matching {
            return false;
        }
        let released = self.in_flight.take();
        if let Some((released_ticket, payload)) = released {
            let again = matches!(outcome, FrameOutcome::Deferred | FrameOutcome::Interrupted);
            if again && self.pending.is_none() {
                let retry = FrameTicket {
                    generation: released_ticket.generation,
                    epoch: current_epoch,
                    frame_id: released_ticket.frame_id,
                    target: released_ticket.target,
                };
                self.pending = Some((retry, payload));
            }
        }
        true
    }

    /// Moves the waiting frame into flight, where nothing is in flight.
    pub fn take_pending(&mut self) -> (frame: Option<(FrameTicket, Payload)>)
        ensures
            old(self).in_flight is Some ==> frame is None && *final(self) == *old(self),
            old(self).in_flight is None ==> frame == old(self).pending && final(self).pending is None,
            old(self).in_flight is None && frame is Some ==> final(self).launched(frame->0),
            old(self).in_flight is None && frame is None ==> final(self).in_flight is None,
            final(self).next_frame_id == old(self).next_frame_id,
            old(self).ordered() ==> final(self).ordered(),
    {
        if self.in_flight.is_some() {
            return None;
        }
        let frame = self.pending.take();
        match frame {
            Some((ticket, payload)) => {
                self.in_flight = Some((ticket, payload.clone()));
                Some((ticket, payload))
            },
            None => None,
        }
    }

    /// Puts a frame back that could not be handed to the worker.
    pub fn send_failed(&mut self, frame: (FrameTicket, Payload))
        ensures
            final(self).in_flight is None,
            final(self).pending == Some(frame),
            final(self).next_frame_id == old(self).next_frame_id,
            old(self).ordered() && old(self).in_flight_ticket() == Some(frame.0)
                ==> final(self).ordered(),
    {
        self.in_flight = None;
        self.pending = Some(frame);
    }

    /// Forgets both frames.
    pub fn clear(&mut self)
        ensures
            final(self).in_flight is None,
            final(self).pending is None,
            final(self).next_frame_id == old(self).next_frame_id,
            final(self).ordered(),
    {
        self.in_flight = None;
        self.pending = None;
    }
}

/// The host's side of the presentation worker.
///
/// `epoch` counts suspensions and activations: what the worker answers for an
/// earlier epoch is out of date. Each method returns what is to be sent to the
/// worker; whether the worker still runs is the caller's to find out.
pub struct PresenterHandle<Payload> {
    pub epoch: u64,
    pub active: bool,
    pub ready: bool,
    pub frames: FrameQueue<Payload>,
    pub stopped: bool,
    pub shutdown_requested: bool,
}

impl<Payload> PresenterHandle<Payload> {
    /// Whether a frame may be handed to the worker now.
    pub open spec fn open_for_frames(&self, worker_running: bool) -> bool {
        self.ready && self.active && self.frames.in_flight is None && worker_running
    }

    /// No frame waits while one could be handed over.
    pub open spec fn drained(&self) -> bool {
        self.open_for_frames(true) ==> self.frames.pending is None
    }

    /// The handle once presentation is suspended.
    pub open spec fn suspended(self) -> Self {
        PresenterHandle {
            ready: false,
            active: false,
            epoch: self.epoch.wrapping_add(1),
            ..self
        }
    }

    /// The handle once presentation is asked for anew.
    pub open spec fn activated(self) -> Self {
        PresenterHandle {
            ready: false,
            active: true,
            epoch: self.epoch.wrapping_add(1),
            ..self
        }
    }

    /// Everything but the readiness and the frames.
    pub open spec fn same_phase(&self, other: &Self) -> bool {
        &&& self.epoch == other.epoch
        &&& self.active == other.active
        &&& self.stopped == other.stopped
        &&& self.shutdown_requested == other.shutdown_requested
    }
}

/// `frame` is what a handle in state `before` hands to the worker out of its
/// waiting frame, and `after` the state it is in then.
pub open spec fn submitted<Payload: Clone>(
    before: PresenterHandle<Payload>,
    after: PresenterHandle<Payload>,
    worker_running: bool,
    frame: Option<(FrameTicket, Payload)>,
) -> bool {
    if before.open_for_frames(worker_running) && before.frames.pending is Some {
        &&& frame == before.frames.pending
        &&& after.frames.launched(frame->0)
        &&& after.frames.pending is None
        &&& after.frames.next_frame_id == before.frames.next_frame_id
        &&& after.ready == before.ready
        &&& after.same_phase(&before)
    } else {
        &&& frame is None
        &&& after == before
    }
}

impl<Payload: Clone> PresenterHandle<Payload> {
    /// A handle for a worker that was just started and has yet to configure
    /// its surface.
    pub fn new() -> (handle: Self)
        ensures
            handle.epoch == 1,
            handle.active,
            !handle.ready,
            handle.frames.in_flight is None,
            handle.frames.pending is None,
            handle.frames.next_frame_id == 1,
            !handle.stopped,
            !handle.shutdown_requested,
            handle.drained(),
            handle.frames.ordered(),
    {
        PresenterHandle {
            epoch: 1,
            active: true,
            ready: false,
            frames: FrameQueue::new(),
            stopped: false,
            shutdown_requested: false,
        }
    }

    /// The target that the worker is reading.
    pub fn in_flight_target(&self) -> (target: Option<CompositionTargetId>)
        ensures
            target == (match self.frames.in_flight {
                Some(frame) => Some(frame.0.target),
                None => None,
            }),
    {
        match &self.frames.in_flight {
            Some(frame) => Some(frame.0.target),
            None => None,
        }
    }

    pub fn stopped(&self) -> (stopped: bool)
        ensures
            stopped == self.stopped,
    {
        self.stopped
    }

    fn can_submit(&self, worker_running: bool) -> (can: bool)
        ensures
            can == self.open_for_frames(worker_running),
    {
        self.ready && self.active && self.frames.in_flight.is_none() && worker_running
    }

    /// Offers a finished composition; the frame to hand to the worker, where
    /// it can be handed over at once.
    pub fn offer(&mut self, target: CompositionTargetId, payload: Payload, worker_running: bool) -> (frame: Option<
        (FrameTicket, Payload),
    >)
        ensures
            ({
                let ticket = FrameTicket {
                    generation: PRESENTER_GENERATION,
                    epoch: old(self).epoch,
                    frame_id: old(self).frames.next_frame_id,
                    target,
                };
                if old(self).open_for_frames(worker_running) {
                    &&& frame == Some((ticket, payload))
                    &&& final(self).frames.launched((ticket, payload))
                    &&& final(self).frames.pending == old(self).frames.pending
                } else {
                    &&& frame is None
                    &&& final(self).frames.in_flight == old(self).frames.in_flight
                    &&& final(self).frames.pending == Some((ticket, payload))
                }
            }),
            final(self).frames.next_frame_id == following_id(old(self).frames.next_frame_id),
            final(self).ready == old(self).ready,
            final(self).same_phase(&*old(self)),
            old(self).drained() && worker_running ==> final(self).drained(),
            old(self).drained() && old(self).frames.ordered() ==> final(self).frames.ordered(),
    {
        let submit_now = self.can_submit(worker_running);
        let epoch: u64 = self.epoch;
        self.frames.offer(PRESENTER_GENERATION, epoch, target, payload, submit_now)
    }

    /// Takes note that `frame`, just returned by [`Self::offer`] or
    /// [`Self::handle_event`], did not reach the worker.
    pub fn frame_not_sent(&mut self, frame: (FrameTicket, Payload))
        ensures
            !final(self).ready,
            final(self).frames.in_flight is None,
            final(self).frames.pending == Some(frame),
            final(self).frames.next_frame_id == old(self).frames.next_frame_id,
            final(self).same_phase(&*old(self)),
            final(self).drained(),
            old(self).frames.ordered() && old(self).frames.in_flight_ticket() == Some(frame.0)
                ==> final(self).frames.ordered(),
    {
        self.ready = false;
        self.frames.send_failed(frame);
    }

    /// Ends presentation until the next activation.
    pub fn suspend(&mut self) -> (command: PresenterCommand)
        ensures
            command == PresenterCommand::Suspend,
            *final(self) == old(self).suspended(),
            final(self).drained(),
    {
        self.ready = false;
        self.active = false;
        self.epoch = self.epoch.wrapping_add(1);
        PresenterCommand::Suspend
    }

    /// Asks the worker to configure its surface for a new epoch.
    pub fn activate(&mut self) -> (command: PresenterCommand)
        ensures
            command == (PresenterCommand::Configure { epoch: final(self).epoch }),
            *final(self) == old(self).activated(),
            final(self).drained(),
    {
        self.ready = false;
        self.epoch = self.epoch.wrapping_add(1);
        self.active = true;
        PresenterCommand::Configure { epoch: self.epoch }
    }

    /// Ends presentation for good; only the first call has anything to send.
    pub fn begin_shutdown(&mut self) -> (command: Option<PresenterCommand>)
        ensures
            old(self).shutdown_requested ==> command is None && *final(self) == *old(self),
            !old(self).shutdown_requested ==> {
                &&& command == Some(PresenterCommand::Shutdown)
                &&& *final(self) == (PresenterHandle {
                    shutdown_requested: true,
                    ..old(self).suspended()
                })
                &&& final(self).drained()
            },
    {
        if self.shutdown_requested {
            return None;
        }
        self.shutdown_requested = true;
        self.ready = false;
        self.active = false;
        self.epoch = self.epoch.wrapping_add(1);
        Some(PresenterCommand::Shutdown)
    }

    fn submit_pending(&mut self, worker_running: bool) -> (frame: Option<(FrameTicket, Payload)>)
        ensures
            submitted(*old(self), *final(self), worker_running, frame),
            worker_running ==> final(self).drained(),
            old(self).frames.ordered() ==> final(self).frames.ordered(),
    {
        if self.can_submit(worker_running) {
            self.frames.take_pending()
        } else {
            None
        }
    }

    /// Takes in what the worker reports; the frame to hand to it next, if any.
    pub fn handle_event(&mut self, event: &PresenterEvent, worker_running: bool) -> (frame: Option<
        (FrameTicket, Payload),
    >)
        ensures
            reacts(*old(self), *final(self), *event, worker_running, frame),
            old(self).drained() && worker_running ==> final(self).drained(),
            old(self).frames.ordered() ==> final(self).frames.ordered(),
    {
        match event {
            PresenterEvent::Ready { epoch } => {
                if *epoch == self.epoch && self.active {
                    self.ready = true;
                    self.submit_pending(worker_running)
                } else {
                    None
                }
            },
            PresenterEvent::FrameReleased { ticket, outcome } => {
                let epoch: u64 = self.epoch;
                if !self.frames.release(*ticket, *outcome, epoch) {
                    return None;
                }
                if matches!(outcome, FrameOutcome::Unavailable) {
                    self.ready = false;
                }
                let ghost between = *self;
                let frame = self.submit_pending(worker_running);
                proof {
                    assert(after_release(
                        *old(self),
                        *self,
                        *ticket,
                        *outcome,
                        worker_running,
                        frame,
                    )) by {
                        assert(released_state(*old(self), between, *ticket, *outcome));
                    }
                }
                frame
            },
            PresenterEvent::OutputUnavailable(_) => {
                self.ready = false;
                None
            },
            PresenterEvent::DeviceLost(_) => {
                self.ready = false;
                self.frames.clear();
                None
            },
            PresenterEvent::UncapturedError(_) => None,
            PresenterEvent::Stopped => {
                self.ready = false;
                self.stopped = true;
                self.frames.clear();
                None
            },
        }
    }
}

/// What a handle makes of an event of its worker. An announcement that the
/// worker is ready counts only for the current epoch; a worker that is lost or
/// stopped takes its frames with it.
pub open spec fn reacts<Payload: Clone>(
    before: PresenterHandle<Payload>,
    after: PresenterHandle<Payload>,
    event: PresenterEvent,
    worker_running: bool,
    frame: Option<(FrameTicket, Payload)>,
) -> bool {
    match event {
        PresenterEvent::Ready { epoch } => if epoch == before.epoch && before.active {
            submitted(
                PresenterHandle { ready: true, ..before },
                after,
                worker_running,
                frame,
            )
        } else {
            frame is None && after == before
        },
        PresenterEvent::FrameReleased { ticket, outcome } => after_release(
            before,
            after,
            ticket,
            outcome,
            worker_running,
            frame,
        ),
        PresenterEvent::OutputUnavailable(_) => frame is None && after
            == (PresenterHandle { ready: false, ..before }),
        PresenterEvent::DeviceLost(_) => {
            &&& frame is None
            &&& after.frames.in_flight is None
            &&& after.frames.pending is None
            &&& after.frames.next_frame_id == before.frames.next_frame_id
            &&& !after.ready
            &&& after.same_phase(&before)
        },
        PresenterEvent::UncapturedError(_) => frame is None && after == before,
        PresenterEvent::Stopped => {
            &&& frame is None
            &&& after.frames.in_flight is None
            &&& after.frames.pending is None
            &&& after.frames.next_frame_id == before.frames.next_frame_id
            &&& !after.ready
            &&& after.stopped
            &&& after.epoch == before.epoch
            &&& after.active == before.active
            &&& after.shutdown_requested == before.shutdown_requested
        },
    }
}

/// `after` is `before` with the frame in flight given back under `outcome`.
pub open spec fn released_state<Payload>(
    before: PresenterHandle<Payload>,
    after: PresenterHandle<Payload>,
    ticket: FrameTicket,
    outcome: FrameOutcome,
) -> bool {
    &&& after.same_phase(&before)
    &&& after.ready == (before.ready && !(outcome is Unavailable))
    &&& after.frames.in_flight is None
    &&& after.frames.next_frame_id == before.frames.next_frame_id
    &&& after.frames.pending == (if worth_another_try(outcome) && before.frames.pending is None {
        Some((FrameTicket { epoch: before.epoch, ..ticket }, (before.frames.in_flight->0).1))
    } else {
        before.frames.pending
    })
}

/// What a handle does with an answer: one for another ticket changes nothing;
/// the right one frees the worker, which then gets the frame that waits.
pub open spec fn after_release<Payload: Clone>(
    before: PresenterHandle<Payload>,
    after: PresenterHandle<Payload>,
    ticket: FrameTicket,
    outcome: FrameOutcome,
    worker_running: bool,
    frame: Option<(FrameTicket, Payload)>,
) -> bool {
    if before.frames.in_flight_ticket() != Some(ticket) {
        frame is None && after == before
    } else {
        exists|between: PresenterHandle<Payload>|
            #![trigger released_state(before, between, ticket, outcome)]
            released_state(before, between, ticket, outcome) && submitted(
                between,
                after,
                worker_running,
                frame,
            )
    }
}

/// What the system answered to a request for the next surface image.
#[derive(Clone, Copy, Debug, PartialEq, Eq, Structural)]
pub enum SurfaceStatus {
    Success,
    Suboptimal,
    Timeout,
    Occluded,
    Outdated,
    Lost,
    Validation,
}

/// What the worker does next with a frame.
#[derive(Clone, Copy, Debug, PartialEq, Eq, Structural)]
pub enum PresentStep {
    /// Give the frame back.
    Finish(FrameOutcome),
    /// Configure the surface again, then give the frame back: as deferred
    /// where that worked, as unavailable where it did not.
    Reconfigure,
    /// Draw and show the frame.
    Draw { reconfigure_after: bool },
}

/// A frame is still wanted: the output is active and in the epoch that the
/// frame was offered in.
pub open spec fn wanted(active: bool, epoch: u64, ticket: FrameTicket) -> bool {
    active && epoch == ticket.epoch
}

/// Whether a frame is still wanted.
pub fn frame_is_current(active: bool, epoch: u64, ticket: &FrameTicket) -> (current: bool)
    ensures
        current == wanted(active, epoch, *ticket),
{
    active && epoch == ticket.epoch
}

/// Decides what to do with a frame once the surface image was asked for.
/// `current` tells whether the frame is still wanted after the wait.
pub fn present_step(current: bool, status: SurfaceStatus) -> (step: PresentStep)
    ensures
        step == (if !current {
            PresentStep::Finish(FrameOutcome::Interrupted)
        } else {
            match status {
                SurfaceStatus::Success => PresentStep::Draw { reconfigure_after: false },
                SurfaceStatus::Suboptimal => PresentStep::Draw { reconfigure_after: true },
                SurfaceStatus::Timeout | SurfaceStatus::Occluded => PresentStep::Finish(
                    FrameOutcome::Deferred,
                ),
                SurfaceStatus::Outdated => PresentStep::Reconfigure,
                SurfaceStatus::Lost | SurfaceStatus::Validation => PresentStep::Finish(
                    FrameOutcome::Unavailable,
                ),
            }
        }),
{
    if !current {
        return PresentStep::Finish(FrameOutcome::Interrupted);
    }
    match status {
        SurfaceStatus::Success => PresentStep::Draw { reconfigure_after: false },
        SurfaceStatus::Suboptimal => PresentStep::Draw { reconfigure_after: true },
        SurfaceStatus::Timeout | SurfaceStatus::Occluded => PresentStep::Finish(
            FrameOutcome::Deferred,
        ),
        SurfaceStatus::Outdated => PresentStep::Reconfigure,
        SurfaceStatus::Lost | SurfaceStatus::Validation => PresentStep::Finish(
            FrameOutcome::Unavailable,
        ),
    }
}

/// The outcome of a frame once its step was carried out; `configured` tells
/// whether the surface could be configured, where the step asked for that.
pub fn step_outcome(step: PresentStep, configured: bool) -> (outcome: FrameOutcome)
    ensures
        outcome == (match step {
            PresentStep::Finish(outcome) => outcome,
            PresentStep::Reconfigure => if configured {
                FrameOutcome::Deferred
            } else {
                FrameOutcome::Unavailable
            },
            PresentStep::Draw { reconfigure_after } => if reconfigure_after && !configured {
                FrameOutcome::Unavailable
            } else {
                FrameOutcome::Presented
            },
        }),
{
    match step {
        PresentStep::Finish(outcome) => outcome,
        PresentStep::Reconfigure => {
            if configured {
                FrameOutcome::Deferred
            } else {
                FrameOutcome::Unavailable
            }
        },
        PresentStep::Draw { reconfigure_after } => {
            if reconfigure_after && !configured {
                FrameOutcome::Unavailable
            } else {
                FrameOutcome::Presented
            }
        },
    }
}

/// The worker's count of deferred frames in a row.
#[derive(Clone, Copy, Debug, PartialEq, Eq, Structural)]
pub struct DeferralCount {
    pub frames: u8,
}

/// What the worker reports about one frame.
pub struct FrameReport {
    /// Why the output is unavailable, where it became so.
    pub unavailable: Option<String>,
    pub outcome: FrameOutcome,
}

impl DeferralCount {
    pub open spec fn wf(&self) -> bool {
        self.frames < MAX_CONSECUTIVE_DEFERRED_FRAMES
    }

    pub fn new() -> (count: Self)
        ensures
            count.frames == 0,
            count.wf(),
    {
        DeferralCount { frames: 0 }
    }

    /// What the worker reports once it has tried to configure the surface for
    /// the first time. Where that failed it ends.
    pub fn worker_started(configured: bool, epoch: u64) -> (event: PresenterEvent)
        ensures
            configured ==> event == (PresenterEvent::Ready { epoch }),
            !configured ==> event is OutputUnavailable && event->OutputUnavailable_0@
                == "initial direct DRM surface configuration failed"@,
    {
        if configured {
            PresenterEvent::Ready { epoch }
        } else {
            PresenterEvent::OutputUnavailable(
                "initial direct DRM surface configuration failed".to_owned(),
            )
        }
    }

    /// Counts a frame that came to `outcome`, and decides what to report: too
    /// many deferred frames in a row make the output unavailable.
    pub fn frame_finished(&mut self, outcome: FrameOutcome) -> (report: FrameReport)
        requires
            old(self).wf(),
        ensures
            final(self).wf(),
            final(self).frames == (match outcome {
                FrameOutcome::Presented | FrameOutcome::Interrupted => 0int,
                FrameOutcome::Deferred => if old(self).frames + 1 == MAX_CONSECUTIVE_DEFERRED_FRAMES {
                    0int
                } else {
                    old(self).frames + 1
                },
                FrameOutcome::Unavailable => old(self).frames as int,
            }),
            report.outcome == (if outcome is Deferred && old(self).frames + 1
                == MAX_CONSECUTIVE_DEFERRED_FRAMES {
                FrameOutcome::Unavailable
            } else {
                outcome
            }),
            (report.unavailable is Some) == (report.outcome is Unavailable),
            outcome is Deferred && report.unavailable is Some ==> report.unavailable->0@
                == "direct DRM surface deferred 3 consecutive frames"@,
            outcome is Unavailable ==> report.unavailable->0@
                == "direct DRM surface is unavailable"@,
    {
        match outcome {
            FrameOutcome::Presented | FrameOutcome::Interrupted => {
                self.frames = 0;
                FrameReport { unavailable: None, outcome }
            },
            FrameOutcome::Deferred => {
                self.frames = self.frames + 1;
                if self.frames >= MAX_CONSECUTIVE_DEFERRED_FRAMES {
                    self.frames = 0;
                    FrameReport {
                        unavailable: Some(
                            "direct DRM surface deferred 3 consecutive frames".to_owned(),
                        ),
                        outcome: FrameOutcome::Unavailable,
                    }
                } else {
                    FrameReport { unavailable: None, outcome }
                }
            },
            FrameOutcome::Unavailable => FrameReport {
                unavailable: Some("direct DRM surface is unavailable".to_owned()),
                outcome,
            },
        }
    }

    /// Counts anew once the surface was configured for `epoch`, and decides
    /// what to report of the attempt.
    pub fn surface_configured(&mut self, configured: bool, epoch: u64) -> (event: PresenterEvent)
        ensures
            configured ==> final(self).frames == 0 && event == (PresenterEvent::Ready { epoch }),
            !configured ==> *final(self) == *old(self) && event is OutputUnavailable
                && event->OutputUnavailable_0@ == "direct DRM surface reconfiguration failed"@,
    {
        if configured {
            self.frames = 0;
            PresenterEvent::Ready { epoch }
        } else {
            PresenterEvent::OutputUnavailable(
                "direct DRM surface reconfiguration failed".to_owned(),
            )
        }
    }
}

/// Suspending, shutting down and activating anew all make the frames offered
/// before out of date: the worker gives them back unpresented.
pub proof fn suspension_interrupts_the_frame_in_flight<Payload>(
    handle: PresenterHandle<Payload>,
    ticket: FrameTicket,
)
    requires
        ticket.epoch == handle.epoch,
    ensures
        !wanted(handle.suspended().active, handle.suspended().epoch, ticket),
        !wanted(handle.activated().active, handle.activated().epoch, ticket),
{
}

/// A frame in flight, once given back for another try, is the next one handed
/// to the worker unless a newer one was offered meanwhile.
pub proof fn a_retry_waits_for_no_newer_frame<Payload: Clone>(
    before: PresenterHandle<Payload>,
    after: PresenterHandle<Payload>,
    outcome: FrameOutcome,
    frame: Option<(FrameTicket, Payload)>,
)
    requires
        before.frames.in_flight is Some,
        before.ready,
        before.active,
        worth_another_try(outcome),
        after_release(before, after, (before.frames.in_flight->0).0, outcome, true, frame),
    ensures
        frame is Some,
        before.frames.pending is None ==> frame->0 == (
            FrameTicket { epoch: before.epoch, ..(before.frames.in_flight->0).0 },
            (before.frames.in_flight->0).1,
        ),
        before.frames.pending is Some ==> frame == before.frames.pending,
        after.frames.pending is None,
{
}

/// A frame is handed to the worker only while the worker runs, is ready and has
/// no other, and presentation is active. It is the one that waited, and is in
/// flight under its own ticket from then on; none waits any more.
pub proof fn frames_are_handed_over_one_at_a_time<Payload: Clone>(
    before: PresenterHandle<Payload>,
    after: PresenterHandle<Payload>,
    worker_running: bool,
    frame: Option<(FrameTicket, Payload)>,
)
    requires
        submitted(before, after, worker_running, frame),
    ensures
        frame is Some ==> before.ready && before.active && worker_running
            && before.frames.in_flight is None && before.frames.pending == frame
            && after.frames.pending is None && after.frames.in_flight is Some && (
        after.frames.in_flight->0).0 == (frame->0).0,
        before.ready && before.active && worker_running && before.frames.in_flight is None
            && before.frames.pending is Some ==> frame is Some,
        frame is None ==> after == before,
        after.epoch == before.epoch && after.active == before.active && after.ready == before.ready,
        after.stopped == before.stopped && after.shutdown_requested == before.shutdown_requested,
        after.frames.next_frame_id == before.frames.next_frame_id,
{
}

/// A worker that says it is ready counts as ready only in the current epoch and
/// while presentation is active; it then gets the frame that waits.
pub proof fn only_the_current_epoch_gets_ready<Payload: Clone>(
    before: PresenterHandle<Payload>,
    after: PresenterHandle<Payload>,
    epoch: u64,
    frame: Option<(FrameTicket, Payload)>,
)
    requires
        reacts(before, after, PresenterEvent::Ready { epoch }, true, frame),
    ensures
        epoch != before.epoch || !before.active ==> after == before && frame is None,
        epoch == before.epoch && before.active ==> after.ready && after.epoch == before.epoch
            && after.active,
        epoch == before.epoch && before.active && before.frames.in_flight is None ==> frame
            == before.frames.pending,
{
}

/// An answer for another ticket than the one in flight releases nothing.
pub proof fn strange_answers_release_nothing<Payload: Clone>(
    before: PresenterHandle<Payload>,
    after: PresenterHandle<Payload>,
    ticket: FrameTicket,
    outcome: FrameOutcome,
    worker_running: bool,
    frame: Option<(FrameTicket, Payload)>,
)
    requires
        before.frames.in_flight is Some ==> (before.frames.in_flight->0).0 != ticket,
        reacts(
            before,
            after,
            PresenterEvent::FrameReleased { ticket, outcome },
            worker_running,
            frame,
        ),
    ensures
        after == before,
        frame is None,
{
}

/// A frame that was presented is not presented again: what follows it is the
/// frame that waited, if any. One that found the output unavailable leaves the
/// worker not ready, and nothing is handed over until it is.
pub proof fn finished_frames_make_way<Payload: Clone>(
    before: PresenterHandle<Payload>,
    after: PresenterHandle<Payload>,
    outcome: FrameOutcome,
    frame: Option<(FrameTicket, Payload)>,
)
    requires
        before.frames.in_flight is Some,
        before.ready,
        before.active,
        reacts(
            before,
            after,
            PresenterEvent::FrameReleased { ticket: (before.frames.in_flight->0).0, outcome },
            true,
            frame,
        ),
    ensures
        outcome is Presented ==> frame == before.frames.pending && after.frames.pending is None
            && after.ready && (frame is None ==> after.frames.in_flight is None),
        outcome is Unavailable ==> frame is None && !after.ready && after.frames.in_flight is None
            && after.frames.pending == before.frames.pending,
        outcome is Deferred || outcome is Interrupted ==> after.ready && frame is Some,
        after.epoch == before.epoch && after.active,
{
}

/// A worker that is lost or has stopped takes its frames with it and is not
/// ready; only one that has stopped counts as stopped. Other reports of trouble
/// keep the frames.
pub proof fn lost_workers_take_their_frames<Payload: Clone>(
    before: PresenterHandle<Payload>,
    after: PresenterHandle<Payload>,
    event: PresenterEvent,
    worker_running: bool,
    frame: Option<(FrameTicket, Payload)>,
)
    requires
        !(event is Ready),
        !(event is FrameReleased),
        reacts(before, after, event, worker_running, frame),
    ensures
        frame is None,
        event is DeviceLost || event is Stopped ==> after.frames.in_flight is None
            && after.frames.pending is None && !after.ready,
        event is Stopped ==> after.stopped,
        !(event is Stopped) ==> after.stopped == before.stopped,
        event is OutputUnavailable ==> !after.ready && after.frames == before.frames,
        event is UncapturedError ==> after == before,
        after.epoch == before.epoch && after.active == before.active,
        after.frames.next_frame_id == before.frames.next_frame_id,
{
}

/// Suspending and activating both start a new epoch, in which the worker has yet
/// to get ready; no frame is lost by either.
pub proof fn phases_start_new_epochs<Payload>(handle: PresenterHandle<Payload>)
    ensures
        !handle.suspended().active && !handle.suspended().ready,
        handle.activated().active && !handle.activated().ready,
        handle.suspended().epoch != handle.epoch,
        handle.activated().epoch != handle.epoch,
        handle.suspended().activated().epoch != handle.epoch,
        handle.epoch < u64::MAX ==> handle.suspended().epoch == handle.epoch + 1
            && handle.activated().epoch == handle.epoch + 1,
        handle.suspended().frames == handle.frames && handle.activated().frames == handle.frames,
        handle.suspended().stopped == handle.stopped,
        handle.activated().stopped == handle.stopped,
        handle.suspended().shutdown_requested == handle.shutdown_requested,
        handle.activated().shutdown_requested == handle.shutdown_requested,
{
}

/// Identifiers ascend one by one until they have run out.
pub proof fn frame_ids_ascend(id: u64)
    ensures
        id < u64::MAX ==> following_id(id) == id + 1,
        following_id(u64::MAX) == u64::MAX,
        offered_before(id, following_id(id)),
{
}

/// A frame is wanted just in the epoch that it was offered in, while presentation
/// is active.
pub proof fn frames_are_wanted_in_their_epoch(active: bool, epoch: u64, ticket: FrameTicket)
    ensures
        wanted(active, epoch, ticket) ==> active && ticket.epoch == epoch,
        wanted(true, ticket.epoch, ticket),
{
}

/// A frame is drawn just if it is still wanted and the surface gave an image for
/// it; the surface is then configured again only where the image did not suit it.
/// A frame that is not wanted any more is given back as interrupted, whatever the
/// surface said.
pub proof fn wanted_frames_with_an_image_are_drawn(
    current: bool,
    status: SurfaceStatus,
    step: PresentStep,
)
    requires
        call_ensures(present_step, (current, status), step),
    ensures
        step is Draw <==> current && (status is Success || status is Suboptimal),
        step matches PresentStep::Draw { reconfigure_after } ==> (reconfigure_after <==> status
            is Suboptimal),
        step is Reconfigure <==> current && status is Outdated,
        !current ==> step == PresentStep::Finish(FrameOutcome::Interrupted),
        current && (status is Timeout || status is Occluded) ==> step == PresentStep::Finish(
            FrameOutcome::Deferred,
        ),
        current && (status is Lost || status is Validation) ==> step == PresentStep::Finish(
            FrameOutcome::Unavailable,
        ),
{
}

/// A frame counts as presented just if it was drawn, on a surface that could be
/// configured again where that was called for. A surface that could not be
/// configured leaves the output unavailable.
pub proof fn drawn_frames_are_presented(
    step: PresentStep,
    configured: bool,
    outcome: FrameOutcome,
)
    requires
        call_ensures(step_outcome, (step, configured), outcome),
    ensures
        step matches PresentStep::Finish(given) ==> outcome == given,
        step is Reconfigure && configured ==> outcome is Deferred,
        step is Reconfigure && !configured ==> outcome is Unavailable,
        step matches PresentStep::Draw { reconfigure_after } ==> {
            &&& !reconfigure_after || configured ==> outcome is Presented
            &&& reconfigure_after && !configured ==> outcome is Unavailable
        },
{
}

/// The third deferred frame in a row makes the output unavailable, and the count
/// starts anew; a frame that is presented or interrupted ends the row.
pub proof fn three_deferred_frames_are_too_many(
    count: &mut DeferralCount,
    outcome: FrameOutcome,
    report: FrameReport,
)
    requires
        old(count).wf(),
        call_ensures(DeferralCount::frame_finished, (count, outcome), report),
    ensures
        outcome is Deferred && old(count).frames < 2 ==> report.outcome is Deferred
            && report.unavailable is None && final(count).frames == old(count).frames + 1,
        outcome is Deferred && old(count).frames == 2 ==> report.outcome is Unavailable
            && report.unavailable is Some && final(count).frames == 0,
        outcome is Presented || outcome is Interrupted ==> report.outcome == outcome
            && report.unavailable is None && final(count).frames == 0,
        outcome is Unavailable ==> report.outcome is Unavailable && report.unavailable is Some
            && final(count).frames == old(count).frames,
{
}

/// An offered frame gets the next ticket, for its own target and epoch. It goes
/// into flight just if that was asked for and nothing is in flight; otherwise it
/// waits, in place of one that waited before.
pub proof fn offered_frames_fly_or_wait<Payload: Clone>(
    queue: &mut FrameQueue<Payload>,
    generation: u64,
    epoch: u64,
    target: CompositionTargetId,
    payload: Payload,
    submit_now: bool,
    frame: Option<(FrameTicket, Payload)>,
)
    requires
        call_ensures(
            FrameQueue::<Payload>::offer,
            (queue, generation, epoch, target, payload, submit_now),
            frame,
        ),
    ensures
        frame is Some <==> submit_now && old(queue).in_flight is None,
        frame matches Some((ticket, handed)) ==> {
            &&& ticket.frame_id == old(queue).next_frame_id && ticket.target == target
            &&& ticket.epoch == epoch && ticket.generation == generation
            &&& handed == payload
            &&& final(queue).in_flight is Some && (final(queue).in_flight->0).0 == ticket
            &&& final(queue).pending == old(queue).pending
        },
        frame is None ==> {
            &&& final(queue).in_flight == old(queue).in_flight
            &&& final(queue).pending matches Some((ticket, waiting))
            &&& ticket.frame_id == old(queue).next_frame_id && ticket.target == target
            &&& ticket.epoch == epoch && ticket.generation == generation
            &&& waiting == payload
        },
        old(queue).next_frame_id < u64::MAX ==> final(queue).next_frame_id == old(
            queue,
        ).next_frame_id + 1,
{
}

/// Only the ticket in flight releases a frame. It comes back to wait just if it
/// was deferred or interrupted and no newer one waits, under the current epoch
/// and otherwise under its own ticket.
pub proof fn released_frames_wait_for_another_try<Payload: Clone>(
    queue: &mut FrameQueue<Payload>,
    ticket: FrameTicket,
    outcome: FrameOutcome,
    epoch: u64,
    released: bool,
)
    requires
        call_ensures(FrameQueue::<Payload>::release, (queue, ticket, outcome, epoch), released),
    ensures
        released <==> old(queue).in_flight is Some && (old(queue).in_flight->0).0 == ticket,
        !released ==> final(queue).in_flight == old(queue).in_flight && final(queue).pending == old(
            queue,
        ).pending,
        released ==> final(queue).in_flight is None,
        released && old(queue).pending is Some ==> final(queue).pending == old(queue).pending,
        released && old(queue).pending is None && (outcome is Deferred || outcome is Interrupted)
            ==> (final(queue).pending matches Some((again, payload)) && again.frame_id
            == ticket.frame_id && again.target == ticket.target && again.epoch == epoch
            && again.generation == ticket.generation && payload == (old(queue).in_flight->0).1),
        released && old(queue).pending is None && (outcome is Presented || outcome is Unavailable)
            ==> final(queue).pending is None,
{
}

/// Shutting down is told to the worker once; asking again changes nothing.
pub proof fn shutdown_is_told_once<Payload: Clone>(
    handle: &mut PresenterHandle<Payload>,
    command: Option<PresenterCommand>,
)
    requires
        call_ensures(PresenterHandle::<Payload>::begin_shutdown, (handle,), command),
    ensures
        command is Some <==> !old(handle).shutdown_requested,
        command matches Some(told) ==> told is Shutdown,
        final(handle).shutdown_requested,
        command is Some ==> !final(handle).active && !final(handle).ready && final(handle).epoch
            != old(handle).epoch && final(handle).frames == old(handle).frames,
        command is None ==> *final(handle) == *old(handle),
{
}

/// A frame that waited flies next, itself, and only when none flies; one that
/// could not be sent waits again.
pub proof fn waiting_frames_fly_next<Payload: Clone>(
    queue: &mut FrameQueue<Payload>,
    frame: Option<(FrameTicket, Payload)>,
    failed: &mut FrameQueue<Payload>,
    unsent: (FrameTicket, Payload),
)
    requires
        call_ensures(FrameQueue::<Payload>::take_pending, (queue,), frame),
        call_ensures(FrameQueue::<Payload>::send_failed, (failed, unsent), ()),
    ensures
        frame is Some <==> old(queue).in_flight is None && old(queue).pending is Some,
        frame is Some ==> frame == old(queue).pending && final(queue).pending is None,
        frame matches Some(flying) ==> (final(queue).in_flight matches Some(held) && held.0
            == flying.0),
        final(failed).pending == Some(unsent) && final(failed).in_flight is None,
        final(queue).next_frame_id == old(queue).next_frame_id,
        final(failed).next_frame_id == old(failed).next_frame_id,
{
}

/// A surface that could be configured is ready for the frames of its epoch, and
/// starts over with its deferrals.
pub proof fn configured_surfaces_are_ready(
    count: &mut DeferralCount,
    configured: bool,
    epoch: u64,
    event: PresenterEvent,
    first: PresenterEvent,
)
    requires
        call_ensures(DeferralCount::surface_configured, (count, configured, epoch), event),
        call_ensures(DeferralCount::worker_started, (configured, epoch), first),
    ensures
        configured <==> event is Ready,
        configured <==> first is Ready,
        event matches PresenterEvent::Ready { epoch: told } ==> told == epoch,
        first matches PresenterEvent::Ready { epoch: told } ==> told == epoch,
        configured ==> final(count).frames == 0,
        !configured ==> event is OutputUnavailable && first is OutputUnavailable && final(
            count).frames == old(count).frames,
{
}

/// Answers of the worker number no frame and leave the epoch and a wish to shut
/// down as they are.
pub proof fn answers_number_no_frame<Payload: Clone>(
    before: PresenterHandle<Payload>,
    after: PresenterHandle<Payload>,
    event: PresenterEvent,
    worker_running: bool,
    frame: Option<(FrameTicket, Payload)>,
)
    requires
        reacts(before, after, event, worker_running, frame),
    ensures
        after.frames.next_frame_id == before.frames.next_frame_id,
        after.epoch == before.epoch && after.shutdown_requested == before.shutdown_requested,
{
}

/// A frame waits only while the worker has one already, is not ready, or
/// presentation is suspended.
pub proof fn frames_wait_for_the_worker_only<Payload>(handle: PresenterHandle<Payload>)
    ensures
        handle.drained() && handle.frames.pending is Some ==> handle.frames.in_flight is Some
            || !handle.ready || !handle.active,
        handle.frames.in_flight is Some || !handle.ready || !handle.active ==> handle.drained(),
        handle.frames.pending is None ==> handle.drained(),
{
}

} // verus!
