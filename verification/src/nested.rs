//! Decisions of the loop that runs inside a window of another compositor.

use vstd::prelude::*;

use crate::number::Real64;
use crate::renderer::FrameResult;
use crate::runtime::{
    complete_capture, iteration_work, take_overdue_capture, CaptureEnd, FrameState, IterationWork,
    PendingCapture,
};
#[allow(unused_imports)]
use crate::runtime::{timed_out, work_due};

verus! {

/// Encoding of a scale factor of one.
pub const UNIT_SCALE: u64 = 0x3ff0_0000_0000_0000;

/// A size in pixels.
#[derive(Clone, Copy, Debug, PartialEq, Eq, Structural)]
pub struct PhysicalSize {
    pub width: u32,
    pub height: u32,
}

/// Whether the window system had work for the loop. A size of zero counts: it
/// is consumed though nothing is resized. A redraw does not.
pub fn host_work_drained(input_pending: bool, resize_pending: bool, scale_pending: bool) -> (drained:
    bool)
    ensures
        drained == (input_pending || resize_pending || scale_pending),
{
    input_pending || resize_pending || scale_pending
}

/// How long the loop may wait for clients: not at all after work of the window
/// system, so that its effects go out at once.
pub fn dispatch_timeout(host_work_drained: bool, frame_state: &FrameState, now: u64) -> (timeout: u64)
    ensures
        timeout == (if host_work_drained {
            0
        } else if frame_state.dirty {
            frame_state.time_left(now)
        } else {
            frame_state.interval
        }),
{
    if host_work_drained {
        0
    } else {
        frame_state.composition_timeout(now, true)
    }
}

/// A size with no side shorter than one pixel.
pub fn nonzero_size(size: PhysicalSize) -> (positive: PhysicalSize)
    ensures
        positive.width == (if size.width == 0 {
            1
        } else {
            size.width
        }),
        positive.height == (if size.height == 0 {
            1
        } else {
            size.height
        }),
{
    PhysicalSize {
        width: if size.width == 0 {
            1
        } else {
            size.width
        },
        height: if size.height == 0 {
            1
        } else {
            size.height
        },
    }
}

/// What is known of the window and not yet taken in by the loop.
#[derive(Clone, Copy, Debug, PartialEq, Eq, Structural)]
pub struct NestedHost {
    pub has_window: bool,
    pub creation_failed: bool,
    pub pending_size: Option<PhysicalSize>,
    pub pending_scale_factor: Option<Real64>,
    pub scale_factor: Real64,
    pub redraw_requested: bool,
    pub close_requested: bool,
}

/// An event of the window. Everything else is input.
#[derive(Clone, Copy, Debug, PartialEq, Eq, Structural)]
pub enum WindowChange {
    CloseRequested,
    Resized(PhysicalSize),
    ScaleFactorChanged(Real64),
    RedrawRequested,
}

impl NestedHost {
    pub fn new() -> (host: Self)
        ensures
            host == (NestedHost {
                has_window: false,
                creation_failed: false,
                pending_size: None,
                pending_scale_factor: None,
                scale_factor: Real64 { bits: UNIT_SCALE },
                redraw_requested: false,
                close_requested: false,
            }),
    {
        NestedHost {
            has_window: false,
            creation_failed: false,
            pending_size: None,
            pending_scale_factor: None,
            scale_factor: Real64::new(UNIT_SCALE),
            redraw_requested: false,
            close_requested: false,
        }
    }

    /// Whether a window is to be created: only once.
    pub fn should_create_window(&self) -> (create: bool)
        ensures
            create == (!self.has_window && !self.creation_failed),
    {
        !self.has_window && !self.creation_failed
    }

    /// Takes note of the new window, or that there is none.
    pub fn window_created(&mut self, window: Option<(PhysicalSize, Real64)>)
        ensures
            *final(self) == (match window {
                Some((size, scale_factor)) => NestedHost {
                    has_window: true,
                    pending_size: Some(size),
                    scale_factor,
                    pending_scale_factor: Some(scale_factor),
                    ..*old(self)
                },
                None => NestedHost { creation_failed: true, ..*old(self) },
            }),
    {
        match window {
            Some((size, scale_factor)) => {
                self.pending_size = Some(size);
                self.scale_factor = scale_factor;
                self.pending_scale_factor = Some(scale_factor);
                self.has_window = true;
            },
            None => {
                self.creation_failed = true;
            },
        }
    }

    /// Takes note of an event of the window.
    pub fn window_changed(&mut self, change: WindowChange)
        ensures
            *final(self) == (match change {
                WindowChange::CloseRequested => NestedHost { close_requested: true, ..*old(self) },
                WindowChange::Resized(size) => NestedHost { pending_size: Some(size), ..*old(self) },
                WindowChange::ScaleFactorChanged(scale_factor) => NestedHost {
                    scale_factor,
                    pending_scale_factor: Some(scale_factor),
                    ..*old(self)
                },
                WindowChange::RedrawRequested => NestedHost { redraw_requested: true, ..*old(self) },
            }),
    {
        match change {
            WindowChange::CloseRequested => {
                self.close_requested = true;
            },
            WindowChange::Resized(size) => {
                self.pending_size = Some(size);
            },
            WindowChange::ScaleFactorChanged(scale_factor) => {
                self.scale_factor = scale_factor;
                self.pending_scale_factor = Some(scale_factor);
            },
            WindowChange::RedrawRequested => {
                self.redraw_requested = true;
            },
        }
    }

    /// Compares the scale factor with what the window says now, in case no
    /// event told of a change.
    pub fn refresh_scale_factor(&mut self, window_scale_factor: Real64)
        ensures
            *final(self) == (if old(self).has_window && !window_scale_factor.same(
                old(self).scale_factor,
            ) {
                NestedHost {
                    scale_factor: window_scale_factor,
                    pending_scale_factor: Some(window_scale_factor),
                    ..*old(self)
                }
            } else {
                *old(self)
            }),
    {
        if !self.has_window {
            return;
        }
        if !window_scale_factor.equals(self.scale_factor) {
            self.scale_factor = window_scale_factor;
            self.pending_scale_factor = Some(window_scale_factor);
        }
    }
}

/// The loop's state between two of its steps.
pub struct NestedLoop {
    pub frame: FrameState,
    pub size: PhysicalSize,
    pub scale_factor: Real64,
    pub remote_debug: bool,
    pub capture: Option<PendingCapture>,
    /// The callbacks to answer once the composition at hand was shown.
    pub presentation_id: Option<u64>,
    pub next_composition: bool,
}

/// What changes about the output.
#[derive(Clone, Copy, Debug, PartialEq, Eq, Structural)]
pub struct HostUpdate {
    pub work_drained: bool,
    pub resize: Option<PhysicalSize>,
    pub rescale: Option<Real64>,
}

/// What came of a rendered frame.
pub struct PresentationEnd {
    /// The callbacks to answer.
    pub presentation_id: Option<u64>,
    pub capture: Option<CaptureEnd>,
}

/// What is to change about an output of size `size` and scale `scale_factor`:
/// only a size that is new and not empty, and a scale that is new.
pub open spec fn host_update(
    host: NestedHost,
    input_pending: bool,
    size: PhysicalSize,
    scale_factor: Real64,
) -> HostUpdate {
    HostUpdate {
        work_drained: input_pending || host.pending_size is Some || host.pending_scale_factor is Some,
        resize: match host.pending_size {
            Some(pending) => if pending.width > 0 && pending.height > 0 && pending != size {
                Some(pending)
            } else {
                None
            },
            None => None,
        },
        rescale: match host.pending_scale_factor {
            Some(pending) => if !pending.same(scale_factor) {
                Some(pending)
            } else {
                None
            },
            None => None,
        },
    }
}

impl NestedLoop {
    /// A loop that is about to start.
    pub fn new(
        size: PhysicalSize,
        scale_factor: Real64,
        remote_debug: bool,
        capture: Option<PendingCapture>,
    ) -> (state: Self)
        ensures
            state.frame == (FrameState {
                dirty: true,
                unpresented: true,
                next_composition: None,
                interval: crate::runtime::FRAME_INTERVAL,
            }),
            state.size == size,
            state.scale_factor == scale_factor,
            state.remote_debug == remote_debug,
            state.capture == capture,
            state.presentation_id is None,
            !state.next_composition,
    {
        NestedLoop {
            frame: FrameState::default(),
            size,
            scale_factor,
            remote_debug,
            capture,
            presentation_id: None,
            next_composition: false,
        }
    }

    /// Whether the program may end now without an error: not while the
    /// screenshot asked for at startup waits.
    pub fn may_exit(&self) -> (may: bool)
        ensures
            may == !(self.capture is Some && self.capture->0.remote_request_id is None),
    {
        match &self.capture {
            Some(capture) => !capture.is_startup(),
            None => true,
        }
    }

    /// Takes in what the window system had for the loop. A redraw shows the
    /// composition at hand again; a change of the output asks for a new one.
    pub fn take_host_work(&mut self, host: &mut NestedHost, input_pending: bool) -> (update: HostUpdate)
        ensures
            update == host_update(
                *old(host),
                input_pending,
                old(self).size,
                old(self).scale_factor,
            ),
            *final(host) == (NestedHost {
                pending_size: None,
                pending_scale_factor: None,
                redraw_requested: false,
                ..*old(host)
            }),
            *final(self) == (NestedLoop {
                size: match update.resize {
                    Some(size) => size,
                    None => old(self).size,
                },
                scale_factor: match update.rescale {
                    Some(scale_factor) => scale_factor,
                    None => old(self).scale_factor,
                },
                frame: FrameState {
                    dirty: old(self).frame.dirty || update.resize is Some || update.rescale is Some,
                    unpresented: old(self).frame.unpresented || old(host).redraw_requested,
                    ..old(self).frame
                },
                next_composition: false,
                ..*old(self)
            }),
    {
        self.next_composition = false;
        let work_drained = host_work_drained(
            input_pending,
            host.pending_size.is_some(),
            host.pending_scale_factor.is_some(),
        );
        if host.redraw_requested {
            host.redraw_requested = false;
            self.frame.request_present();
        }
        let pending_size = host.pending_size.take();
        let pending_scale_factor = host.pending_scale_factor.take();
        let mut resize: Option<PhysicalSize> = None;
        let mut rescale: Option<Real64> = None;
        if let Some(size) = pending_size {
            if size.width > 0 && size.height > 0 && !(size.width == self.size.width && size.height
                == self.size.height) {
                self.size = size;
                resize = Some(size);
            }
        }
        if let Some(scale_factor) = pending_scale_factor {
            if !scale_factor.equals(self.scale_factor) {
                self.scale_factor = scale_factor;
                rescale = Some(scale_factor);
            }
        }
        if resize.is_some() || rescale.is_some() {
            self.frame.request_composition();
        }
        HostUpdate { work_drained, resize, rescale }
    }

    /// Takes in what the clients did: new surface contents ask for a
    /// composition, a request to be told of the next frame for a presentation.
    pub fn clients_progressed(&mut self, surface_events: bool, presentation_requested: bool)
        ensures
            *final(self) == (NestedLoop {
                frame: FrameState {
                    dirty: old(self).frame.dirty || surface_events,
                    unpresented: old(self).frame.unpresented || presentation_requested,
                    ..old(self).frame
                },
                ..*old(self)
            }),
    {
        if surface_events {
            self.frame.request_composition();
        }
        if presentation_requested {
            self.frame.request_present();
        }
    }

    /// The work of this iteration.
    pub fn plan_work(&self, input_pending: bool, now: u64) -> (work: IterationWork)
        ensures
            work == work_due(
                input_pending,
                self.frame.dirty && self.frame.composable(now),
                self.remote_debug,
                true,
            ),
    {
        iteration_work(input_pending, self.frame.composition_due(now), self.remote_debug, true)
    }

    /// The main world advanced: a redraw that no composition follows asks for
    /// one.
    pub fn main_advanced(&mut self, work: IterationWork, redraw_requested: bool)
        ensures
            *final(self) == (NestedLoop {
                frame: FrameState {
                    dirty: old(self).frame.dirty || (redraw_requested && !work.composition_advance),
                    ..old(self).frame
                },
                ..*old(self)
            }),
    {
        if redraw_requested && !work.composition_advance {
            self.frame.request_composition();
        }
    }

    /// A composition was rendered, and `presentation_id` staged with it.
    pub fn composed(&mut self, now: u64, redraw_requested: bool, presentation_id: u64)
        ensures
            *final(self) == (NestedLoop {
                frame: FrameState {
                    dirty: false,
                    unpresented: true,
                    next_composition: Some(
                        if now + old(self).frame.interval > u64::MAX {
                            u64::MAX
                        } else {
                            (now + old(self).frame.interval) as u64
                        },
                    ),
                    ..old(self).frame
                },
                presentation_id: Some(presentation_id),
                next_composition: redraw_requested,
                ..*old(self)
            }),
    {
        self.presentation_id = Some(presentation_id);
        self.frame.composition_rendered(now);
        self.next_composition = redraw_requested;
    }

    /// Accepts a request for a screenshot while none waits; it is taken of the
    /// composition at hand.
    pub fn accept_capture(&mut self, capture: PendingCapture)
        requires
            old(self).capture is None,
        ensures
            *final(self) == (NestedLoop {
                capture: Some(capture),
                frame: FrameState { unpresented: true, ..old(self).frame },
                ..*old(self)
            }),
    {
        self.capture = Some(capture);
        self.frame.request_present();
    }

    /// Gives up on a screenshot that waited too long.
    pub fn expire_capture(&mut self, now: u64) -> (end: Option<CaptureEnd>)
        ensures
            old(self).capture is Some && old(self).capture->0.deadline <= now ==> {
                &&& end is Some
                &&& timed_out(
                    old(self).capture->0,
                    if old(self).capture->0.remote_request_id is Some {
                        "screenshot timed out before a presentable frame was available"@
                    } else {
                        "startup screenshot timed out before a presentable frame was available"@
                    },
                    end->0,
                )
                &&& *final(self) == (NestedLoop { capture: None, ..*old(self) })
            },
            !(old(self).capture is Some && old(self).capture->0.deadline <= now) ==> end is None
                && *final(self) == *old(self),
    {
        match take_overdue_capture(&mut self.capture, now) {
            Some(capture) => {
                let ghost waiting = capture;
                let error = if capture.is_startup() {
                    "startup screenshot timed out before a presentable frame was available".to_owned()
                } else {
                    "screenshot timed out before a presentable frame was available".to_owned()
                };
                let end = complete_capture(capture, Err(error));
                assert(end.settles(waiting, Err(error)));
                Some(end)
            },
            None => None,
        }
    }

    /// Whether the screenshot that waits is to be taken with the next frame,
    /// which it then asks for.
    pub fn prepare_capture(&mut self, has_surface_frame: bool) -> (capture: bool)
        ensures
            capture == (old(self).capture is Some && old(self).capture->0.takeable(
                has_surface_frame,
            )),
            *final(self) == (NestedLoop {
                frame: FrameState {
                    unpresented: old(self).frame.unpresented || capture,
                    ..old(self).frame
                },
                ..*old(self)
            }),
    {
        let capture = match &self.capture {
            Some(waiting) => waiting.is_ready(has_surface_frame),
            None => false,
        };
        if capture {
            self.frame.request_present();
        }
        capture
    }

    /// Whether the composition at hand is to be rendered now.
    pub fn should_render(&self) -> (render: bool)
        ensures
            render == (self.frame.unpresented && !self.frame.dirty),
    {
        self.frame.presentation_due()
    }

    /// Takes in what came of rendering. Callbacks are answered once their frame
    /// was shown; a screenshot that was taken is settled.
    pub fn rendered(&mut self, result: FrameResult) -> (end: PresentationEnd)
        ensures
            end.presentation_id == (if result.presented {
                old(self).presentation_id
            } else {
                None
            }),
            (end.capture is Some) == (result.capture is Some && old(self).capture is Some),
            end.capture is Some ==> end.capture->0.settles(old(self).capture->0, result.capture->0),
            *final(self) == (NestedLoop {
                frame: FrameState {
                    unpresented: old(self).frame.unpresented && !result.presented,
                    ..old(self).frame
                },
                presentation_id: if result.presented {
                    None
                } else {
                    old(self).presentation_id
                },
                capture: if result.capture is Some {
                    None
                } else {
                    old(self).capture
                },
                ..*old(self)
            }),
    {
        let mut presentation_id: Option<u64> = None;
        if result.presented {
            self.frame.presented();
            presentation_id = self.presentation_id.take();
        }
        let capture = match result.capture {
            Some(outcome) => match self.capture.take() {
                Some(capture) => Some(complete_capture(capture, outcome)),
                None => None,
            },
            None => None,
        };
        PresentationEnd { presentation_id, capture }
    }

    /// Ends an iteration: a redraw requested while the composition was made is
    /// for the next one, and does not keep this one from being shown.
    pub fn finish_iteration(&mut self)
        ensures
            *final(self) == (NestedLoop {
                frame: FrameState {
                    dirty: old(self).frame.dirty || old(self).next_composition,
                    ..old(self).frame
                },
                ..*old(self)
            }),
    {
        if self.next_composition {
            self.frame.request_composition();
        }
    }
}

/// Taking in the same window state twice changes the output only once.
pub proof fn host_updates_settle(
    host: NestedHost,
    input_pending: bool,
    size: PhysicalSize,
    scale_factor: Real64,
)
    requires
        host.pending_scale_factor is Some ==> !host.pending_scale_factor->0.nan(),
    ensures
        ({
            let update = host_update(host, input_pending, size, scale_factor);
            let next_size = match update.resize {
                Some(size) => size,
                None => size,
            };
            let next_scale = match update.rescale {
                Some(scale_factor) => scale_factor,
                None => scale_factor,
            };
            let again = host_update(host, input_pending, next_size, next_scale);
            again.resize is None && again.rescale is None
        }),
{
}

/// The output takes the size that the window last had just if that is not empty
/// and new, and the scale just if it is new. Anything that the host brought
/// counts as work.
pub proof fn outputs_follow_the_window(
    host: NestedHost,
    input_pending: bool,
    size: PhysicalSize,
    scale_factor: Real64,
)
    ensures
        ({
            let update = host_update(host, input_pending, size, scale_factor);
            &&& update.resize matches Some(next) ==> host.pending_size == Some(next) && next.width > 0
                && next.height > 0 && (next.width != size.width || next.height != size.height)
            &&& host.pending_size matches Some(next) ==> (next.width > 0 && next.height > 0 && (
            next.width != size.width || next.height != size.height) ==> update.resize is Some)
            &&& update.rescale matches Some(next) ==> host.pending_scale_factor == Some(next)
                && !next.same(scale_factor)
            &&& host.pending_scale_factor matches Some(next) ==> (!next.same(scale_factor)
                ==> update.rescale is Some)
            &&& input_pending ==> update.work_drained
            &&& host.pending_size is Some ==> update.work_drained
            &&& host.pending_scale_factor is Some ==> update.work_drained
            &&& update.work_drained ==> input_pending || host.pending_size is Some
                || host.pending_scale_factor is Some
        }),
{
}

/// What rendering came to decides what becomes of the composition: one that was
/// shown need not be shown again and has its callbacks answered, one that was not
/// stays to be shown. A screenshot that was taken is settled with what came of
/// it.
pub proof fn shown_frames_answer_their_callbacks(
    state: &mut NestedLoop,
    result: FrameResult,
    end: PresentationEnd,
)
    requires
        call_ensures(NestedLoop::rendered, (state, result), end),
    ensures
        result.presented ==> end.presentation_id == old(state).presentation_id && !final(
            state).frame.unpresented && final(state).presentation_id is None,
        !result.presented ==> end.presentation_id is None && final(state).frame.unpresented == old(
            state,
        ).frame.unpresented && final(state).presentation_id == old(state).presentation_id,
        end.capture is Some <==> result.capture is Some && old(state).capture is Some,
        result.capture is Some ==> final(state).capture is None,
        result.capture is None ==> final(state).capture == old(state).capture,
        final(state).frame.dirty == old(state).frame.dirty,
{
}

/// What the window system had for the loop is taken in once: the output has the
/// new size and scale, a change asks for a composition, and a redraw for the
/// composition at hand to be shown.
pub proof fn host_work_is_taken_in_once(
    state: &mut NestedLoop,
    host: &mut NestedHost,
    input_pending: bool,
    update: HostUpdate,
)
    requires
        call_ensures(NestedLoop::take_host_work, (state, host, input_pending), update),
    ensures
        final(host).pending_size is None && final(host).pending_scale_factor is None,
        !final(host).redraw_requested,
        final(host).close_requested == old(host).close_requested,
        update.resize matches Some(size) ==> final(state).size == size && old(host).pending_size
            == Some(size),
        update.resize is None ==> final(state).size == old(state).size,
        update.rescale matches Some(scale) ==> final(state).scale_factor == scale && old(
            host,
        ).pending_scale_factor == Some(scale),
        update.rescale is None ==> final(state).scale_factor == old(state).scale_factor,
        final(state).frame.dirty <==> old(state).frame.dirty || update.resize is Some
            || update.rescale is Some,
        final(state).frame.unpresented <==> old(state).frame.unpresented || old(
            host,
        ).redraw_requested,
{
}

/// An event of the window is noted as what it is, until the loop takes it in; a
/// new size or scale replaces the one before.
pub proof fn window_events_are_noted(host: &mut NestedHost, change: WindowChange)
    requires
        call_ensures(NestedHost::window_changed, (host, change), ()),
    ensures
        final(host).close_requested <==> old(host).close_requested || change is CloseRequested,
        final(host).redraw_requested <==> old(host).redraw_requested || change is RedrawRequested,
        change matches WindowChange::Resized(size) ==> final(host).pending_size == Some(size),
        !(change is Resized) ==> final(host).pending_size == old(host).pending_size,
        change matches WindowChange::ScaleFactorChanged(scale) ==> final(host).scale_factor == scale
            && final(host).pending_scale_factor == Some(scale),
        !(change is ScaleFactorChanged) ==> final(host).scale_factor == old(host).scale_factor
            && final(host).pending_scale_factor == old(host).pending_scale_factor,
{
}

/// After work of the window system the loop does not wait; otherwise it waits
/// until the composition that is asked for may start, or for an interval.
pub proof fn nested_loops_wake_in_time(
    drained: bool,
    frame: &FrameState,
    now: u64,
    timeout: u64,
)
    requires
        call_ensures(dispatch_timeout, (drained, frame, now), timeout),
    ensures
        drained ==> timeout == 0,
        !drained && frame.dirty && frame.next_composition is Some && now
            <= frame.next_composition->0 ==> now + timeout == frame.next_composition->0,
        !drained && frame.dirty && frame.next_composition is None ==> timeout == 0,
        !drained && !frame.dirty ==> timeout == frame.interval,
{
}

/// A size that is taken on has no side of zero, and a size without one stays as
/// it is, side by side.
pub proof fn sizes_have_no_side_of_zero(size: PhysicalSize, positive: PhysicalSize)
    requires
        call_ensures(nonzero_size, (size,), positive),
    ensures
        positive.width >= 1 && positive.height >= 1,
        size.width > 0 ==> positive.width == size.width,
        size.height > 0 ==> positive.height == size.height,
        size.width == 0 ==> positive.width == 1,
        size.height == 0 ==> positive.height == 1,
{
}

/// Whatever clients and the program do asks for a frame and never takes such a
/// request back: what clients commit is composed, what they wait for is shown,
/// and a redraw of the program is composed unless it is the one that advanced for
/// the composition.
pub proof fn changes_ask_for_frames(
    clients: &mut NestedLoop,
    surface_events: bool,
    presentation_requested: bool,
    program: &mut NestedLoop,
    work: IterationWork,
    redraw: bool,
)
    requires
        call_ensures(
            NestedLoop::clients_progressed,
            (clients, surface_events, presentation_requested),
            (),
        ),
        call_ensures(NestedLoop::main_advanced, (program, work, redraw), ()),
    ensures
        old(clients).frame.dirty || surface_events ==> final(clients).frame.dirty,
        !old(clients).frame.dirty && final(clients).frame.dirty ==> surface_events,
        old(clients).frame.unpresented || presentation_requested ==> final(
            clients).frame.unpresented,
        !old(clients).frame.unpresented && final(clients).frame.unpresented
            ==> presentation_requested,
        old(program).frame.dirty ==> final(program).frame.dirty,
        redraw && !work.composition_advance ==> final(program).frame.dirty,
        !old(program).frame.dirty && final(program).frame.dirty ==> redraw
            && !work.composition_advance,
        final(program).frame.unpresented == old(program).frame.unpresented,
{
}

/// A screenshot that is accepted has the composition at hand shown again; the
/// loop may not end while a screenshot of the command line waits, and may while
/// one of a remote client does.
pub proof fn accepted_screenshots_keep_the_loop(
    state: &mut NestedLoop,
    capture: PendingCapture,
    after: &NestedLoop,
    may: bool,
)
    requires
        old(state).capture is None,
        call_ensures(NestedLoop::accept_capture, (state, capture), ()),
        *after == *final(state),
        call_ensures(NestedLoop::may_exit, (after,), may),
    ensures
        final(state).frame.unpresented && final(state).frame.dirty == old(state).frame.dirty,
        final(state).capture == Some(capture),
        may <==> capture.remote_request_id is Some,
{
}

/// A window is created once: an attempt that failed is not repeated, and one that
/// succeeded has the loop take on the size and scale of the window.
pub proof fn windows_are_created_once(
    host: &mut NestedHost,
    window: Option<(PhysicalSize, Real64)>,
    after: &NestedHost,
    again: bool,
)
    requires
        call_ensures(NestedHost::window_created, (host, window), ()),
        *after == *final(host),
        call_ensures(NestedHost::should_create_window, (after,), again),
    ensures
        !again,
        window is Some ==> final(host).has_window && final(host).pending_size == Some(
            (window->0).0,
        ) && final(host).pending_scale_factor == Some((window->0).1) && final(host).scale_factor == (
        window->0).1,
        window is None ==> final(host).creation_failed && final(host).has_window == old(
            host,
        ).has_window && final(host).pending_size == old(host).pending_size,
        final(host).close_requested == old(host).close_requested,
{
}

} // verus!
