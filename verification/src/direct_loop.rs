//! Decisions of the loop that presents straight on a display connector.
//!
//! The loop keeps composing whatever happens to the output. What it may show
//! depends on three things: the session is active, the connector is connected,
//! and its modes are still the ones that were chosen at startup.

use vstd::prelude::*;

use crate::presenter::{FrameTicket, PresenterCommand, PresenterEvent, PresenterHandle};
use crate::runtime::{
    complete_capture, expire_capture, iteration_work, take_ready_capture, CaptureEnd, FrameState,
    IterationWork, PendingCapture,
};
#[allow(unused_imports)]
use crate::runtime::{remaining, timed_out, work_due};
use crate::shell::{host_composition_target, CompositionTargetId};
#[allow(unused_imports)]
use crate::presenter::{following_id, reacts, PRESENTER_GENERATION};

verus! {

/// How long the worker has to stop once it was told to, in nanoseconds.
pub const PRESENTER_SHUTDOWN_DEADLINE: u64 = 250_000_000;

/// What a scan of the selected device found out about a connector.
#[derive(Clone, Copy, Debug, PartialEq, Eq, Structural)]
pub enum ConnectorEvent {
    Connected { connector: u32 },
    Disconnected { connector: u32 },
    Changed { connector: u32 },
}

/// The connector that is presented on.
#[derive(Clone, Copy, Debug, PartialEq, Eq, Structural)]
pub struct OutputMonitor {
    pub device: u64,
    pub connector: u32,
    pub connected: bool,
    pub mode_compatible: bool,
}

/// The loop's state between two of its steps.
pub struct DirectLoop<Payload> {
    pub frame: FrameState,
    pub presenter: PresenterHandle<Payload>,
    pub monitor: OutputMonitor,
    pub session_active: bool,
    pub remote_debug: bool,
    pub capture: Option<PendingCapture>,
    pub input_pending: bool,
    pub next_composition: bool,
    pub exit: bool,
}

impl<Payload> DirectLoop<Payload> {
    /// Nothing stands in the way of showing frames.
    pub open spec fn presentable(&self) -> bool {
        self.session_active && self.monitor.connected && self.monitor.mode_compatible
    }

    /// Until the presenter is shut down it is active just when frames can be
    /// shown.
    pub open spec fn wf(&self) -> bool {
        !self.presenter.shutdown_requested ==> self.presenter.active == self.presentable()
    }

    pub open spec fn suspended(self) -> Self {
        DirectLoop { presenter: self.presenter.suspended(), ..self }
    }

    pub open spec fn activated(self) -> Self {
        DirectLoop { presenter: self.presenter.activated(), ..self }
    }

    /// The command that goes with [`Self::activated`].
    pub open spec fn configuration(self) -> PresenterCommand {
        PresenterCommand::Configure { epoch: self.presenter.epoch.wrapping_add(1) }
    }

    /// The state after one finding of a scan.
    pub open spec fn connector_event(self, event: ConnectorEvent) -> Self {
        match event {
            ConnectorEvent::Disconnected { connector } => if connector == self.monitor.connector {
                DirectLoop {
                    monitor: OutputMonitor { connected: false, ..self.monitor },
                    ..self.suspended()
                }
            } else {
                self
            },
            ConnectorEvent::Connected { connector } => if connector == self.monitor.connector {
                let connected = DirectLoop {
                    monitor: OutputMonitor { connected: true, ..self.monitor },
                    ..self
                };
                if self.monitor.mode_compatible && self.session_active {
                    connected.activated()
                } else {
                    connected
                }
            } else {
                self
            },
            ConnectorEvent::Changed { connector } => if connector == self.monitor.connector {
                DirectLoop {
                    monitor: OutputMonitor {
                        connected: false,
                        mode_compatible: false,
                        ..self.monitor
                    },
                    ..self.suspended()
                }
            } else {
                self
            },
        }
    }

    /// What the presenter is told about one finding of a scan.
    pub open spec fn connector_command(self, event: ConnectorEvent) -> Seq<PresenterCommand> {
        match event {
            ConnectorEvent::Disconnected { connector } | ConnectorEvent::Changed { connector } =>
            if connector == self.monitor.connector {
                seq![PresenterCommand::Suspend]
            } else {
                seq![]
            },
            ConnectorEvent::Connected { connector } => if connector == self.monitor.connector
                && self.monitor.mode_compatible && self.session_active {
                seq![self.configuration()]
            } else {
                seq![]
            },
        }
    }

    /// The state after a whole scan.
    pub open spec fn scanned(self, events: Seq<ConnectorEvent>) -> Self
        decreases events.len(),
    {
        if events.len() == 0 {
            self
        } else {
            self.scanned(events.drop_last()).connector_event(events.last())
        }
    }

    /// What the presenter is told about a whole scan.
    pub open spec fn scan_commands(self, events: Seq<ConnectorEvent>) -> Seq<PresenterCommand>
        decreases events.len(),
    {
        if events.len() == 0 {
            seq![]
        } else {
            self.scan_commands(events.drop_last()) + self.scanned(
                events.drop_last(),
            ).connector_command(events.last())
        }
    }
}

impl<Payload: Clone> DirectLoop<Payload> {
    /// A loop that is about to start on a connected output.
    pub fn new(
        device: u64,
        connector: u32,
        refresh_millihertz: u32,
        remote_debug: bool,
        capture: Option<PendingCapture>,
    ) -> (state: Self)
        ensures
            state.wf(),
            state.presentable(),
            state.frame.dirty,
            state.frame.unpresented,
            state.frame.next_composition is None,
            refresh_millihertz > 0 ==> state.frame.interval
                == crate::runtime::MILLIHERTZ_INTERVAL / refresh_millihertz as u64,
            refresh_millihertz == 0 ==> state.frame.interval == crate::runtime::FRAME_INTERVAL,
            state.presenter.epoch == 1,
            !state.presenter.ready,
            state.presenter.frames.in_flight is None,
            state.presenter.frames.pending is None,
            !state.presenter.shutdown_requested,
            !state.presenter.stopped,
            state.presenter.drained(),
            state.presenter.frames.ordered(),
            state.monitor.device == device,
            state.monitor.connector == connector,
            state.remote_debug == remote_debug,
            state.capture == capture,
            !state.input_pending,
            !state.next_composition,
            !state.exit,
    {
        DirectLoop {
            frame: FrameState::default().with_refresh_millihertz(refresh_millihertz),
            presenter: PresenterHandle::new(),
            monitor: OutputMonitor { device, connector, connected: true, mode_compatible: true },
            session_active: true,
            remote_debug,
            capture,
            input_pending: false,
            next_composition: false,
            exit: false,
        }
    }

    /// How long the loop may sleep: until a composition may start or the
    /// screenshot is overdue, whichever comes first; for ever if neither waits.
    pub fn dispatch_timeout(&self, now: u64) -> (timeout: Option<u64>)
        ensures
            ({
                let composition = if self.frame.dirty {
                    Some(self.frame.time_left(now))
                } else {
                    None
                };
                let capture = match self.capture {
                    Some(capture) => Some(remaining(capture.deadline, now)),
                    None => None,
                };
                timeout == (match (composition, capture) {
                    (Some(composition), Some(capture)) => Some(
                        if capture < composition {
                            capture
                        } else {
                            composition
                        },
                    ),
                    (Some(composition), None) => Some(composition),
                    (None, capture) => capture,
                })
            }),
    {
        let composition = self.frame.composition_demand_timeout(now);
        let capture: Option<u64> = match &self.capture {
            Some(capture) => Some(
                if now < capture.deadline {
                    capture.deadline - now
                } else {
                    0
                },
            ),
            None => None,
        };
        match (composition, capture) {
            (Some(composition), Some(capture)) => Some(
                if capture < composition {
                    capture
                } else {
                    composition
                },
            ),
            (Some(composition), None) => Some(composition),
            (None, capture) => capture,
        }
    }

    /// Starts an iteration: no input has come in yet.
    pub fn begin_iteration(&mut self)
        ensures
            *final(self) == (DirectLoop {
                input_pending: false,
                next_composition: false,
                ..*old(self)
            }),
    {
        self.input_pending = false;
        self.next_composition = false;
    }

    /// Takes note of an input event.
    pub fn input_received(&mut self)
        ensures
            *final(self) == (DirectLoop { input_pending: true, ..*old(self) }),
    {
        self.input_pending = true;
    }

    /// The session went to another terminal: nothing can be shown. The loss of
    /// focus that goes with it is input.
    pub fn session_paused(&mut self) -> (command: PresenterCommand)
        requires
            old(self).wf(),
        ensures
            final(self).wf(),
            command == PresenterCommand::Suspend,
            *final(self) == (DirectLoop {
                session_active: false,
                input_pending: true,
                ..old(self).suspended()
            }),
    {
        self.session_active = false;
        self.input_pending = true;
        self.presenter.suspend()
    }

    /// The session came back: presentation resumes where the output allows it.
    pub fn session_activated(&mut self) -> (command: Option<PresenterCommand>)
        requires
            old(self).wf(),
        ensures
            final(self).wf(),
            old(self).monitor.connected && old(self).monitor.mode_compatible ==> {
                &&& command == Some(old(self).configuration())
                &&& *final(self) == (DirectLoop { session_active: true, ..old(self).activated() })
            },
            !(old(self).monitor.connected && old(self).monitor.mode_compatible) ==> {
                &&& command is None
                &&& *final(self) == (DirectLoop { session_active: true, ..*old(self) })
            },
    {
        self.session_active = true;
        if self.monitor.connected && self.monitor.mode_compatible {
            Some(self.presenter.activate())
        } else {
            None
        }
    }

    /// Whether a change of `device` is one of the selected device, whose
    /// connectors are then to be scanned.
    pub fn watches(&self, device: u64) -> (watched: bool)
        ensures
            watched == (device == self.monitor.device),
    {
        device == self.monitor.device
    }

    /// Takes in a scan of the selected device; what to tell the presenter, in
    /// order. Only the connector that is presented on counts.
    pub fn connectors_changed(&mut self, events: &Vec<ConnectorEvent>) -> (commands: Vec<
        PresenterCommand,
    >)
        requires
            old(self).wf(),
        ensures
            final(self).wf(),
            *final(self) == old(self).scanned(events@),
            commands@ == old(self).scan_commands(events@),
    {
        let mut commands: Vec<PresenterCommand> = Vec::new();
        let mut i: usize = 0;
        let ghost before = *self;
        while i < events.len()
            invariant
                i <= events@.len(),
                self.wf(),
                *self == before.scanned(events@.take(i as int)),
                commands@ == before.scan_commands(events@.take(i as int)),
            decreases events@.len() - i,
        {
            proof {
                assert(events@.take(i + 1).drop_last() =~= events@.take(i as int));
                assert(events@.take(i + 1).last() == events@[i as int]);
            }
            let ghost seen = *self;
            match events[i] {
                ConnectorEvent::Disconnected { connector } => {
                    if connector == self.monitor.connector {
                        self.monitor.connected = false;
                        commands.push(self.presenter.suspend());
                    }
                },
                ConnectorEvent::Connected { connector } => {
                    if connector == self.monitor.connector {
                        self.monitor.connected = true;
                        if self.monitor.mode_compatible && self.session_active {
                            commands.push(self.presenter.activate());
                        }
                    }
                },
                ConnectorEvent::Changed { connector } => {
                    if connector == self.monitor.connector {
                        self.monitor.connected = false;
                        self.monitor.mode_compatible = false;
                        commands.push(self.presenter.suspend());
                    }
                },
            }
            assert(*self == seen.connector_event(events@[i as int]));
            assert(commands@ =~= before.scan_commands(events@.take(i as int))
                + seen.connector_command(events@[i as int]));
            i = i + 1;
        }
        assert(events@.take(i as int) =~= events@);
        commands
    }

    /// A device is gone; if it is the selected one, nothing can be shown.
    pub fn device_removed(&mut self, device: u64) -> (command: Option<PresenterCommand>)
        requires
            old(self).wf(),
        ensures
            final(self).wf(),
            device == old(self).monitor.device ==> {
                &&& command == Some(PresenterCommand::Suspend)
                &&& *final(self) == (DirectLoop {
                    monitor: OutputMonitor { connected: false, ..old(self).monitor },
                    ..old(self).suspended()
                })
            },
            device != old(self).monitor.device ==> command is None && *final(self) == *old(self),
    {
        if device == self.monitor.device {
            self.monitor.connected = false;
            Some(self.presenter.suspend())
        } else {
            None
        }
    }

    /// A key asked for another terminal: presentation stops before the switch.
    /// [`Self::terminal_switched`] follows.
    pub fn begin_terminal_switch(&mut self) -> (command: PresenterCommand)
        ensures
            command == PresenterCommand::Suspend,
            *final(self) == old(self).suspended(),
    {
        self.presenter.suspend()
    }

    /// The switch was asked for, or failed and presentation resumes.
    pub fn terminal_switched(&mut self, switched: bool) -> (command: Option<PresenterCommand>)
        requires
            !old(self).presenter.active,
        ensures
            final(self).wf(),
            switched ==> command is None && *final(self) == (DirectLoop {
                session_active: false,
                ..*old(self)
            }),
            !switched && old(self).presentable() ==> command == Some(old(self).configuration())
                && *final(self) == old(self).activated(),
            !switched && !old(self).presentable() ==> command is None && *final(self) == *old(self),
    {
        if switched {
            self.session_active = false;
            return None;
        }
        if self.session_active && self.monitor.connected && self.monitor.mode_compatible {
            Some(self.presenter.activate())
        } else {
            None
        }
    }

    /// Takes in what the clients did: new surface contents, or a request to be
    /// told of the next frame, ask for a composition.
    pub fn clients_progressed(&mut self, surface_events: bool, presentation_requested: bool)
        ensures
            *final(self) == (DirectLoop {
                frame: FrameState {
                    dirty: old(self).frame.dirty || surface_events || presentation_requested,
                    ..old(self).frame
                },
                ..*old(self)
            }),
    {
        if surface_events || presentation_requested {
            self.frame.request_composition();
        }
    }

    /// The work of this iteration. Composing goes on while the session is away.
    pub fn plan_work(&self, now: u64) -> (work: IterationWork)
        ensures
            work == work_due(
                self.input_pending,
                self.frame.dirty && self.frame.composable(now),
                self.remote_debug,
                true,
            ),
    {
        iteration_work(self.input_pending, self.frame.composition_due(now), self.remote_debug, true)
    }

    /// The main world advanced: a moved cursor is shown with the composition at
    /// hand, a redraw that no composition follows asks for one.
    pub fn main_advanced(&mut self, work: IterationWork, redraw_requested: bool, cursor_moved: bool)
        ensures
            *final(self) == (DirectLoop {
                frame: FrameState {
                    dirty: old(self).frame.dirty || (redraw_requested && !work.composition_advance),
                    unpresented: old(self).frame.unpresented || cursor_moved,
                    ..old(self).frame
                },
                ..*old(self)
            }),
    {
        if cursor_moved {
            self.frame.request_present();
        }
        if redraw_requested && !work.composition_advance {
            self.frame.request_composition();
        }
    }

    /// Takes in whether a command asked the program to end.
    pub fn request_exit(&mut self, exit: bool)
        ensures
            *final(self) == (DirectLoop { exit: old(self).exit || exit, ..*old(self) }),
    {
        if exit {
            self.exit = true;
        }
    }

    /// The target to compose into.
    pub fn composition_target(&self) -> (target: CompositionTargetId)
        ensures
            self.presenter.frames.in_flight is Some ==> target
                != (self.presenter.frames.in_flight->0).0.target,
            target == CompositionTargetId::Second <==> self.presenter.frames.in_flight is Some && (
            self.presenter.frames.in_flight->0).0.target == CompositionTargetId::First,
    {
        host_composition_target(self.presenter.in_flight_target())
    }

    /// A composition was rendered; the screenshot to take of it, if any. A
    /// redraw that was requested meanwhile is for the next composition.
    pub fn composed(&mut self, now: u64, redraw_requested: bool, has_surface_frame: bool) -> (taken:
        Option<PendingCapture>)
        ensures
            ({
                let ready = old(self).capture is Some && old(self).capture->0.takeable(
                    has_surface_frame,
                );
                &&& taken == (if ready {
                    old(self).capture
                } else {
                    None
                })
                &&& *final(self) == (DirectLoop {
                    frame: final(self).frame,
                    next_composition: redraw_requested,
                    capture: if ready {
                        None
                    } else {
                        old(self).capture
                    },
                    ..*old(self)
                })
            }),
            !final(self).frame.dirty,
            final(self).frame.unpresented,
            final(self).frame.next_composition == Some(
                if now + old(self).frame.interval > u64::MAX {
                    u64::MAX
                } else {
                    (now + old(self).frame.interval) as u64
                },
            ),
            final(self).frame.interval == old(self).frame.interval,
    {
        self.frame.composition_rendered(now);
        self.next_composition = redraw_requested;
        take_ready_capture(&mut self.capture, has_surface_frame)
    }

    /// Settles a screenshot; the one asked for at startup ends the program.
    pub fn settle_capture(&mut self, capture: PendingCapture, result: Result<(), String>) -> (end:
        CaptureEnd)
        ensures
            end.settles(capture, result),
            *final(self) == (DirectLoop {
                exit: old(self).exit || end == CaptureEnd::Exit,
                ..*old(self)
            }),
    {
        let end = complete_capture(capture, result);
        if matches!(end, CaptureEnd::Exit) {
            self.exit = true;
        }
        end
    }

    /// Offers the composition in `target` to the presenter; the frame to hand
    /// to the worker, where it can be handed over at once.
    pub fn offer(&mut self, target: CompositionTargetId, payload: Payload, worker_running: bool) -> (frame:
        Option<(FrameTicket, Payload)>)
        requires
            old(self).wf(),
        ensures
            final(self).wf(),
            (frame is Some) == old(self).presenter.open_for_frames(worker_running),
            frame is Some ==> {
                &&& (frame->0).0 == (FrameTicket {
                    generation: PRESENTER_GENERATION,
                    epoch: old(self).presenter.epoch,
                    frame_id: old(self).presenter.frames.next_frame_id,
                    target,
                })
                &&& (frame->0).1 == payload
                &&& final(self).presenter.frames.launched(frame->0)
                &&& final(self).presenter.frames.pending == old(self).presenter.frames.pending
            },
            frame is None ==> {
                &&& final(self).presenter.frames.in_flight == old(self).presenter.frames.in_flight
                &&& final(self).presenter.frames.pending == Some(
                    (
                        FrameTicket {
                            generation: PRESENTER_GENERATION,
                            epoch: old(self).presenter.epoch,
                            frame_id: old(self).presenter.frames.next_frame_id,
                            target,
                        },
                        payload,
                    ),
                )
            },
            final(self).presenter.frames.next_frame_id == following_id(
                old(self).presenter.frames.next_frame_id,
            ),
            final(self).presenter.ready == old(self).presenter.ready,
            final(self).presenter.same_phase(&old(self).presenter),
            old(self).presenter.drained() && worker_running ==> final(self).presenter.drained(),
            old(self).presenter.drained() && old(self).presenter.frames.ordered()
                ==> final(self).presenter.frames.ordered(),
            final(self).frame == (FrameState { unpresented: false, ..old(self).frame }),
            *final(self) == (DirectLoop {
                presenter: final(self).presenter,
                frame: final(self).frame,
                ..*old(self)
            }),
    {
        let frame = self.presenter.offer(target, payload, worker_running);
        self.frame.presented();
        frame
    }

    /// Takes in what the presenter reports; the frame to hand to the worker
    /// next, if any.
    pub fn presenter_event(&mut self, event: &PresenterEvent, worker_running: bool) -> (frame: Option<
        (FrameTicket, Payload),
    >)
        requires
            old(self).wf(),
        ensures
            final(self).wf(),
            *final(self) == (DirectLoop { presenter: final(self).presenter, ..*old(self) }),
            reacts(old(self).presenter, final(self).presenter, *event, worker_running, frame),
            old(self).presenter.drained() && worker_running ==> final(self).presenter.drained(),
            old(self).presenter.frames.ordered() ==> final(self).presenter.frames.ordered(),
    {
        self.presenter.handle_event(event, worker_running)
    }

    /// Accepts a request for a screenshot while none waits; it is taken of a
    /// new composition.
    pub fn accept_capture(&mut self, capture: PendingCapture)
        requires
            old(self).capture is None,
        ensures
            *final(self) == (DirectLoop {
                capture: Some(capture),
                frame: FrameState { dirty: true, ..old(self).frame },
                ..*old(self)
            }),
    {
        self.capture = Some(capture);
        self.frame.request_composition();
    }

    /// Gives up on a screenshot that waited too long.
    pub fn expire_capture(&mut self, now: u64) -> (end: Option<CaptureEnd>)
        ensures
            old(self).capture is Some && old(self).capture->0.deadline <= now ==> {
                &&& end is Some
                &&& timed_out(
                    old(self).capture->0,
                    "screenshot timed out before a composition was available"@,
                    end->0,
                )
                &&& *final(self) == (DirectLoop { capture: None, ..*old(self) })
            },
            !(old(self).capture is Some && old(self).capture->0.deadline <= now) ==> end is None
                && *final(self) == *old(self),
    {
        expire_capture(
            &mut self.capture,
            now,
            "screenshot timed out before a composition was available",
        )
    }

    /// Ends an iteration; whether the composition at hand is to be offered
    /// again, because something drawn over it changed.
    pub fn finish_iteration(&mut self) -> (offer_again: bool)
        ensures
            *final(self) == (DirectLoop {
                frame: FrameState {
                    dirty: old(self).frame.dirty || old(self).next_composition,
                    ..old(self).frame
                },
                ..*old(self)
            }),
            offer_again == (final(self).frame.unpresented && !final(self).frame.dirty && old(
                self,
            ).presentable()),
    {
        if self.next_composition {
            self.frame.request_composition();
        }
        self.frame.presentation_due() && self.session_active && self.monitor.connected
            && self.monitor.mode_compatible
    }

    /// Tells the worker to stop.
    pub fn begin_shutdown(&mut self) -> (command: Option<PresenterCommand>)
        requires
            old(self).wf(),
        ensures
            final(self).wf(),
            final(self).presenter.shutdown_requested,
            command == (if old(self).presenter.shutdown_requested {
                None
            } else {
                Some(PresenterCommand::Shutdown)
            }),
            *final(self) == (if old(self).presenter.shutdown_requested {
                *old(self)
            } else {
                DirectLoop {
                    presenter: PresenterHandle {
                        shutdown_requested: true,
                        ..old(self).presenter.suspended()
                    },
                    ..*old(self)
                }
            }),
    {
        self.presenter.begin_shutdown()
    }

    /// How long to wait on for the worker to stop; none once it has, or once
    /// the time is up.
    pub fn shutdown_wait(&self, now: u64, deadline: u64) -> (wait: Option<u64>)
        ensures
            wait == (if self.presenter.stopped || now >= deadline {
                None
            } else {
                Some((deadline - now) as u64)
            }),
    {
        if self.presenter.stopped() || now >= deadline {
            None
        } else {
            Some(deadline - now)
        }
    }
}

/// A connector whose modes changed is not presented on again, whatever later
/// scans find.
pub proof fn changed_modes_need_a_restart<Payload: Clone>(
    state: DirectLoop<Payload>,
    events: Seq<ConnectorEvent>,
)
    requires
        state.wf(),
        !state.presenter.shutdown_requested,
        !state.monitor.mode_compatible,
    ensures
        !state.scanned(events).monitor.mode_compatible,
        !state.scanned(events).presenter.active,
    decreases events.len(),
{
    if events.len() > 0 {
        changed_modes_need_a_restart(state, events.drop_last());
    }
}

/// Scans never touch frames, pacing or the session.
pub proof fn scans_leave_the_composition_alone<Payload: Clone>(
    state: DirectLoop<Payload>,
    events: Seq<ConnectorEvent>,
)
    ensures
        state.scanned(events).frame == state.frame,
        state.scanned(events).presenter.frames == state.presenter.frames,
        state.scanned(events).session_active == state.session_active,
        state.scanned(events).capture == state.capture,
    decreases events.len(),
{
    if events.len() > 0 {
        scans_leave_the_composition_alone(state, events.drop_last());
    }
}

/// What a scan finds about another connector changes nothing, and nobody is told
/// of it.
pub proof fn other_connectors_do_not_matter<Payload: Clone>(
    state: DirectLoop<Payload>,
    event: ConnectorEvent,
)
    requires
        match event {
            ConnectorEvent::Disconnected { connector } => connector != state.monitor.connector,
            ConnectorEvent::Connected { connector } => connector != state.monitor.connector,
            ConnectorEvent::Changed { connector } => connector != state.monitor.connector,
        },
    ensures
        state.connector_event(event) == state,
        state.connector_command(event).len() == 0,
{
}

/// An output that is disconnected or changed is not presented on any more, and
/// the presenter is told so. Only a change of modes makes it unfit for good.
pub proof fn lost_outputs_suspend_the_presenter<Payload: Clone>(state: DirectLoop<Payload>)
    ensures
        ({
            let connector = state.monitor.connector;
            let unplugged = ConnectorEvent::Disconnected { connector };
            let changed = ConnectorEvent::Changed { connector };
            let gone = state.connector_event(unplugged);
            let unfit = state.connector_event(changed);
            &&& !gone.monitor.connected && !gone.presenter.active && !gone.presenter.ready
            &&& gone.monitor.mode_compatible == state.monitor.mode_compatible
            &&& !unfit.monitor.connected && !unfit.monitor.mode_compatible
            &&& !unfit.presenter.active && !unfit.presenter.ready
            &&& gone.presenter.epoch != state.presenter.epoch
            &&& unfit.presenter.epoch != state.presenter.epoch
            &&& state.connector_command(unplugged).len() == 1
            &&& state.connector_command(unplugged)[0] is Suspend
            &&& state.connector_command(changed).len() == 1
            &&& state.connector_command(changed)[0] is Suspend
            &&& gone.monitor.device == state.monitor.device
            &&& gone.monitor.connector == state.monitor.connector
        }),
{
}

/// An output that comes back is presented on again just if its modes still fit
/// and the session is active. The presenter is then told to configure its
/// surface for the very epoch that the loop goes on in.
pub proof fn returning_outputs_are_configured<Payload: Clone>(state: DirectLoop<Payload>)
    ensures
        ({
            let plugged = ConnectorEvent::Connected { connector: state.monitor.connector };
            let back = state.connector_event(plugged);
            let told = state.connector_command(plugged);
            let fits = state.monitor.mode_compatible && state.session_active;
            &&& back.monitor.connected
            &&& back.monitor.mode_compatible == state.monitor.mode_compatible
            &&& fits ==> {
                &&& back.presenter.active && !back.presenter.ready
                &&& told.len() == 1
                &&& told[0] matches PresenterCommand::Configure { epoch }
                &&& epoch == back.presenter.epoch && epoch != state.presenter.epoch
            }
            &&& !fits ==> back.presenter == state.presenter && told.len() == 0
        }),
{
}

/// Findings of a scan are taken in one after the other, and the presenter is
/// told of them in that order.
pub proof fn scans_are_taken_in_order<Payload: Clone>(
    state: DirectLoop<Payload>,
    events: Seq<ConnectorEvent>,
    last: ConnectorEvent,
)
    ensures
        state.scanned(seq![]) == state,
        state.scan_commands(seq![]).len() == 0,
        state.scanned(events.push(last)) == state.scanned(events).connector_event(last),
        state.scan_commands(events.push(last)) == state.scan_commands(events) + state.scanned(
            events,
        ).connector_command(last),
{
    assert(events.push(last).drop_last() =~= events);
}

/// Whatever a scan finds, the presenter is active just when frames can be shown.
pub proof fn scans_keep_the_presenter_in_step<Payload: Clone>(
    state: DirectLoop<Payload>,
    events: Seq<ConnectorEvent>,
)
    requires
        state.presenter.active == (state.session_active && state.monitor.connected
            && state.monitor.mode_compatible),
    ensures
        ({
            let after = state.scanned(events);
            after.presenter.active == (after.session_active && after.monitor.connected
                && after.monitor.mode_compatible)
        }),
    decreases events.len(),
{
    if events.len() > 0 {
        scans_keep_the_presenter_in_step(state, events.drop_last());
    }
}

/// Until it is shut down the presenter of a loop in order is active just while
/// the session is active and the output is connected in a mode that fits.
pub proof fn presenters_are_active_while_frames_show<Payload: Clone>(state: DirectLoop<Payload>)
    requires
        state.wf(),
        !state.presenter.shutdown_requested,
    ensures
        state.presenter.active <==> state.session_active && state.monitor.connected
            && state.monitor.mode_compatible,
        state.presentable() <==> state.session_active && state.monitor.connected
            && state.monitor.mode_compatible,
{
}

/// A loop that sleeps as long as it is told misses neither the start of the
/// composition that is asked for nor the deadline of the screenshot that waits;
/// with neither it sleeps until something happens.
pub proof fn direct_loops_wake_in_time<Payload: Clone>(
    state: &DirectLoop<Payload>,
    now: u64,
    timeout: Option<u64>,
)
    requires
        call_ensures(DirectLoop::<Payload>::dispatch_timeout, (state, now), timeout),
    ensures
        timeout is None <==> !state.frame.dirty && state.capture is None,
        timeout matches Some(sleep) ==> {
            &&& state.frame.dirty && state.frame.next_composition is Some && now
                <= state.frame.next_composition->0 ==> now + sleep <= state.frame.next_composition->0
            &&& state.frame.dirty && state.frame.next_composition is None ==> sleep == 0
            &&& state.capture is Some && now <= (state.capture->0).deadline ==> now + sleep <= (
            state.capture->0).deadline
            &&& state.capture is Some && (state.capture->0).deadline <= now ==> sleep == 0
            &&& !state.frame.dirty && state.capture is Some && now <= (state.capture->0).deadline
                ==> now + sleep == (state.capture->0).deadline
        },
{
}

/// A session that comes back presents again just if the output allows it, for the
/// epoch that the presenter is told; one that goes away suspends the presenter.
pub proof fn sessions_resume_where_the_output_allows<Payload: Clone>(
    back: &mut DirectLoop<Payload>,
    command: Option<PresenterCommand>,
    away: &mut DirectLoop<Payload>,
    told: PresenterCommand,
)
    requires
        old(back).wf(),
        old(away).wf(),
        call_ensures(DirectLoop::<Payload>::session_activated, (back,), command),
        call_ensures(DirectLoop::<Payload>::session_paused, (away,), told),
    ensures
        final(back).session_active,
        command is Some <==> old(back).monitor.connected && old(back).monitor.mode_compatible,
        command matches Some(given) ==> (given matches PresenterCommand::Configure { epoch } && epoch
            == final(back).presenter.epoch && final(back).presenter.active),
        command is None ==> final(back).presenter == old(back).presenter,
        !final(away).session_active && !final(away).presenter.active && told is Suspend,
        final(away).input_pending,
        final(back).frame == old(back).frame && final(away).frame == old(away).frame,
{
}

/// Losing the selected device ends presentation; losing another one changes
/// nothing.
pub proof fn only_the_selected_device_matters<Payload: Clone>(
    state: &mut DirectLoop<Payload>,
    device: u64,
    command: Option<PresenterCommand>,
)
    requires
        old(state).wf(),
        call_ensures(DirectLoop::<Payload>::device_removed, (state, device), command),
    ensures
        device == old(state).monitor.device ==> !final(state).monitor.connected && !final(
            state).presenter.active && command == Some(PresenterCommand::Suspend),
        device != old(state).monitor.device ==> *final(state) == *old(state) && command is None,
{
}

/// The loop never composes into the target that the worker is reading.
pub proof fn targets_in_use_are_not_composed_into<Payload: Clone>(
    state: &DirectLoop<Payload>,
    target: CompositionTargetId,
)
    requires
        call_ensures(DirectLoop::<Payload>::composition_target, (state,), target),
    ensures
        state.presenter.frames.in_flight matches Some((ticket, _)) ==> target != ticket.target,
        state.presenter.frames.in_flight is None ==> target is First,
{
}

/// A composition that was made is up to date and to be shown; the screenshot that
/// waits is taken of it once its client shows something.
pub proof fn compositions_take_the_waiting_screenshot<Payload: Clone>(
    state: &mut DirectLoop<Payload>,
    now: u64,
    redraw: bool,
    has_surface_frame: bool,
    taken: Option<PendingCapture>,
)
    requires
        call_ensures(
            DirectLoop::<Payload>::composed,
            (state, now, redraw, has_surface_frame),
            taken,
        ),
    ensures
        !final(state).frame.dirty && final(state).frame.unpresented,
        final(state).next_composition == redraw,
        taken is Some <==> old(state).capture is Some && (has_surface_frame || !(old(
            state,
        ).capture->0).wait_for_client),
        taken is Some ==> taken == old(state).capture && final(state).capture is None,
        taken is None ==> final(state).capture == old(state).capture,
{
}

/// A composition is offered again without being made anew just if something over
/// it changed, nothing in it did, and frames can be shown.
pub proof fn unchanged_compositions_are_offered_again<Payload: Clone>(
    state: &mut DirectLoop<Payload>,
    again: bool,
)
    requires
        call_ensures(DirectLoop::<Payload>::finish_iteration, (state,), again),
    ensures
        final(state).frame.dirty <==> old(state).frame.dirty || old(state).next_composition,
        again <==> old(state).frame.unpresented && !old(state).frame.dirty && !old(
            state,
        ).next_composition && old(state).session_active && old(state).monitor.connected && old(
            state,
        ).monitor.mode_compatible,
{
}

/// Whatever clients and the program do asks for a frame and never takes such a
/// request back: what clients commit or wait for is composed, a redraw of the
/// program too unless it is the one that advanced for the composition, and a
/// cursor that moved only has the composition shown again.
pub proof fn changes_ask_for_frames<Payload: Clone>(
    clients: &mut DirectLoop<Payload>,
    surface_events: bool,
    presentation_requested: bool,
    program: &mut DirectLoop<Payload>,
    work: IterationWork,
    redraw: bool,
    cursor_moved: bool,
)
    requires
        call_ensures(
            DirectLoop::<Payload>::clients_progressed,
            (clients, surface_events, presentation_requested),
            (),
        ),
        call_ensures(
            DirectLoop::<Payload>::main_advanced,
            (program, work, redraw, cursor_moved),
            (),
        ),
    ensures
        old(clients).frame.dirty || surface_events || presentation_requested ==> final(
            clients).frame.dirty,
        !old(clients).frame.dirty && final(clients).frame.dirty ==> surface_events
            || presentation_requested,
        final(clients).frame.unpresented == old(clients).frame.unpresented,
        old(program).frame.dirty ==> final(program).frame.dirty,
        redraw && !work.composition_advance ==> final(program).frame.dirty,
        !old(program).frame.dirty && final(program).frame.dirty ==> redraw
            && !work.composition_advance,
        cursor_moved || old(program).frame.unpresented ==> final(program).frame.unpresented,
        !old(program).frame.unpresented && final(program).frame.unpresented ==> cursor_moved,
        final(clients).presenter == old(clients).presenter,
        final(program).presenter == old(program).presenter,
        final(clients).capture == old(clients).capture && final(program).capture == old(
            program,
        ).capture,
{
}

/// A screenshot that is accepted waits for a composition, which it asks for.
pub proof fn accepted_screenshots_ask_for_a_composition<Payload: Clone>(
    state: &mut DirectLoop<Payload>,
    capture: PendingCapture,
)
    requires
        old(state).capture is None,
        call_ensures(DirectLoop::<Payload>::accept_capture, (state, capture), ()),
    ensures
        final(state).capture == Some(capture) && final(state).frame.dirty,
        final(state).frame.unpresented == old(state).frame.unpresented,
        final(state).presenter == old(state).presenter,
{
}

/// Shutting down waits for a presenter that runs, up to the deadline and no
/// longer.
pub proof fn shutdown_waits_for_the_presenter<Payload: Clone>(
    state: &DirectLoop<Payload>,
    now: u64,
    deadline: u64,
    wait: Option<u64>,
)
    requires
        call_ensures(DirectLoop::<Payload>::shutdown_wait, (state, now, deadline), wait),
    ensures
        wait is Some <==> !state.presenter.stopped && now < deadline,
        wait matches Some(left) ==> now + left == deadline && left > 0,
{
}

} // verus!
