//! Pacing of compositions and screenshots, shared by every backend loop.
//!
//! Times are nanoseconds on one monotonic clock.

use vstd::prelude::*;

verus! {

/// Time between two compositions where no output says otherwise.
pub const FRAME_INTERVAL: u64 = 16_666_666;

/// Nanoseconds in a thousand seconds: the interval at one millihertz.
pub const MILLIHERTZ_INTERVAL: u64 = 1_000_000_000_000;

/// What is left until `deadline`, seen from `now`.
pub open spec fn remaining(deadline: u64, now: u64) -> u64 {
    if now < deadline {
        (deadline - now) as u64
    } else {
        0
    }
}

/// Which parts of the frame are out of date, and when the next composition may
/// start.
#[derive(Clone, Copy, Debug, PartialEq, Eq, Structural)]
pub struct FrameState {
    pub dirty: bool,
    pub unpresented: bool,
    pub next_composition: Option<u64>,
    pub interval: u64,
}

impl FrameState {
    /// Whether a new composition could start at `now`.
    pub open spec fn composable(&self, now: u64) -> bool {
        self.next_composition is None || self.next_composition->0 <= now
    }

    /// Time until the next composition may start.
    pub open spec fn time_left(&self, now: u64) -> u64 {
        match self.next_composition {
            Some(deadline) => remaining(deadline, now),
            None => 0,
        }
    }

    /// Uses the interval of an output that refreshes at the given rate. A rate
    /// of zero says nothing and leaves the interval as it is.
    pub fn with_refresh_millihertz(self, millihertz: u32) -> (state: Self)
        ensures
            state == (FrameState {
                interval: if millihertz == 0 {
                    self.interval
                } else {
                    MILLIHERTZ_INTERVAL / millihertz as u64
                },
                ..self
            }),
    {
        if millihertz == 0 {
            return self;
        }
        let interval: u64 = MILLIHERTZ_INTERVAL / millihertz as u64;
        FrameState {
            dirty: self.dirty,
            unpresented: self.unpresented,
            next_composition: self.next_composition,
            interval,
        }
    }

    pub fn composition_dirty(&self) -> (dirty: bool)
        ensures
            dirty == self.dirty,
    {
        self.dirty
    }

    pub fn present_needed(&self) -> (needed: bool)
        ensures
            needed == self.unpresented,
    {
        self.unpresented
    }

    /// Asks for a new composition.
    pub fn request_composition(&mut self)
        ensures
            *final(self) == (FrameState { dirty: true, ..*old(self) }),
    {
        self.dirty = true;
    }

    /// Asks for the composition at hand to be shown again.
    pub fn request_present(&mut self)
        ensures
            *final(self) == (FrameState { unpresented: true, ..*old(self) }),
    {
        self.unpresented = true;
    }

    /// Takes note of a composition that was rendered at `now`. The next one
    /// waits for one interval.
    pub fn composition_rendered(&mut self, now: u64)
        ensures
            *final(self) == (FrameState {
                dirty: false,
                unpresented: true,
                next_composition: Some(
                    if now + old(self).interval > u64::MAX {
                        u64::MAX
                    } else {
                        (now + old(self).interval) as u64
                    },
                ),
                ..*old(self)
            }),
    {
        self.dirty = false;
        self.unpresented = true;
        self.next_composition = Some(now.saturating_add(self.interval));
    }

    /// Takes note that the composition at hand was shown.
    pub fn presented(&mut self)
        ensures
            *final(self) == (FrameState { unpresented: false, ..*old(self) }),
    {
        self.unpresented = false;
    }

    /// Whether a composition is asked for and may start.
    pub fn composition_due(&self, now: u64) -> (due: bool)
        ensures
            due == (self.dirty && self.composable(now)),
    {
        self.dirty && match self.next_composition {
            Some(deadline) => deadline <= now,
            None => true,
        }
    }

    /// Whether the composition at hand is to be shown: not while a newer one is
    /// asked for.
    pub fn presentation_due(&self) -> (due: bool)
        ensures
            due == (self.unpresented && !self.dirty),
    {
        self.unpresented && !self.dirty
    }

    fn time_left_at(&self, now: u64) -> (left: u64)
        ensures
            left == self.time_left(now),
    {
        match self.next_composition {
            Some(deadline) => if now < deadline {
                deadline - now
            } else {
                0
            },
            None => 0,
        }
    }

    /// How long a loop may sleep that also polls once per interval.
    pub fn composition_timeout(&self, now: u64, active: bool) -> (timeout: u64)
        ensures
            timeout == (if self.dirty && active {
                self.time_left(now)
            } else {
                self.interval
            }),
    {
        if self.dirty && active {
            self.time_left_at(now)
        } else {
            self.interval
        }
    }

    /// How long a loop may sleep that is woken for everything but compositions.
    pub fn composition_demand_timeout(&self, now: u64) -> (timeout: Option<u64>)
        ensures
            timeout == (if self.dirty {
                Some(self.time_left(now))
            } else {
                None
            }),
    {
        if self.dirty {
            Some(self.time_left_at(now))
        } else {
            None
        }
    }
}

impl Default for FrameState {
    fn default() -> (state: Self)
        ensures
            state == (FrameState {
                dirty: true,
                unpresented: true,
                next_composition: None,
                interval: FRAME_INTERVAL,
            }),
    {
        FrameState {
            dirty: true,
            unpresented: true,
            next_composition: None,
            interval: FRAME_INTERVAL,
        }
    }
}

/// What one iteration of a backend loop has to do.
#[derive(Clone, Copy, Debug, PartialEq, Eq, Structural)]
pub struct IterationWork {
    pub advance_main: bool,
    pub composition_advance: bool,
}

/// The work of one iteration.
pub open spec fn work_due(
    input_pending: bool,
    composition_due: bool,
    remote_debug: bool,
    session_active: bool,
) -> IterationWork {
    let composition_advance = session_active && (composition_due || remote_debug);
    IterationWork { advance_main: input_pending || composition_advance, composition_advance }
}

/// Decides what an iteration has to do. Input alone advances the main world;
/// a composition always advances both.
pub fn iteration_work(
    input_pending: bool,
    composition_due: bool,
    remote_debug: bool,
    session_active: bool,
) -> (work: IterationWork)
    ensures
        work == work_due(input_pending, composition_due, remote_debug, session_active),
{
    let composition_advance = session_active && (composition_due || remote_debug);
    IterationWork { advance_main: input_pending || composition_advance, composition_advance }
}

/// A screenshot that waits for a frame.
#[derive(Clone, Debug)]
pub struct PendingCapture {
    pub path: String,
    /// The request to answer; none for the screenshot asked for at startup.
    pub remote_request_id: Option<u64>,
    pub wait_for_client: bool,
    pub deadline: u64,
}

impl PendingCapture {
    /// Whether the picture may be taken, given whether a client has shown
    /// anything yet.
    pub open spec fn takeable(&self, has_surface_frame: bool) -> bool {
        !self.wait_for_client || has_surface_frame
    }

    /// The screenshot asked for on the command line.
    pub fn startup(path: String, wait_for_client: bool, deadline: u64) -> (capture: Self)
        ensures
            capture == (PendingCapture { path, remote_request_id: None, wait_for_client, deadline }),
    {
        PendingCapture { path, remote_request_id: None, wait_for_client, deadline }
    }

    /// A screenshot that a debugging client asked for.
    pub fn remote(request_id: u64, path: String, deadline: u64) -> (capture: Self)
        ensures
            capture == (PendingCapture {
                path,
                remote_request_id: Some(request_id),
                wait_for_client: false,
                deadline,
            }),
    {
        PendingCapture { path, remote_request_id: Some(request_id), wait_for_client: false, deadline }
    }

    pub fn is_startup(&self) -> (startup: bool)
        ensures
            startup == (self.remote_request_id is None),
    {
        self.remote_request_id.is_none()
    }

    pub fn is_ready(&self, has_surface_frame: bool) -> (ready: bool)
        ensures
            ready == self.takeable(has_surface_frame),
    {
        !self.wait_for_client || has_surface_frame
    }

    pub fn is_overdue(&self, now: u64) -> (overdue: bool)
        ensures
            overdue == (self.deadline <= now),
    {
        self.deadline <= now
    }
}

/// Takes the waiting screenshot if the picture may be taken.
pub fn take_ready_capture(capture: &mut Option<PendingCapture>, has_surface_frame: bool) -> (taken: Option<
    PendingCapture,
>)
    ensures
        *old(capture) is Some && (*old(capture))->0.takeable(has_surface_frame) ==> taken == *old(capture)
            && *final(capture) is None,
        !(*old(capture) is Some && (*old(capture))->0.takeable(has_surface_frame)) ==> taken is None
            && *final(capture) == *old(capture),
{
    let ready = match &*capture {
        Some(waiting) => waiting.is_ready(has_surface_frame),
        None => false,
    };
    if ready {
        capture.take()
    } else {
        None
    }
}

/// Takes the waiting screenshot if its time is up.
pub fn take_overdue_capture(capture: &mut Option<PendingCapture>, now: u64) -> (taken: Option<
    PendingCapture,
>)
    ensures
        *old(capture) is Some && (*old(capture))->0.deadline <= now ==> taken == *old(capture)
            && *final(capture) is None,
        !(*old(capture) is Some && (*old(capture))->0.deadline <= now) ==> taken is None
            && *final(capture) == *old(capture),
{
    let overdue = match &*capture {
        Some(waiting) => waiting.is_overdue(now),
        None => false,
    };
    if overdue {
        capture.take()
    } else {
        None
    }
}

/// What follows from a finished or abandoned screenshot.
#[derive(Debug)]
pub enum CaptureEnd {
    /// Tell the client that asked for it.
    Reply { request_id: u64, result: Result<(), String> },
    /// The startup screenshot is saved: leave the loop.
    Exit,
    /// The startup screenshot failed: leave with this error.
    Fail(String),
}

impl CaptureEnd {
    /// This is what follows for `capture` from `result`.
    pub open spec fn settles(&self, capture: PendingCapture, result: Result<(), String>) -> bool {
        match capture.remote_request_id {
            Some(request_id) => *self == (CaptureEnd::Reply { request_id, result }),
            None => match result {
                Ok(()) => *self == CaptureEnd::Exit,
                Err(error) => *self == CaptureEnd::Fail(error),
            },
        }
    }
}

/// Settles a screenshot: a remote one is answered, the startup one ends the
/// program.
pub fn complete_capture(capture: PendingCapture, result: Result<(), String>) -> (end: CaptureEnd)
    ensures
        end.settles(capture, result),
{
    match capture.remote_request_id {
        Some(request_id) => CaptureEnd::Reply { request_id, result },
        None => match result {
            Ok(()) => CaptureEnd::Exit,
            Err(error) => CaptureEnd::Fail(error),
        },
    }
}

/// Settles the waiting screenshot as timed out with `message`, if its time is
/// up.
pub fn expire_capture(capture: &mut Option<PendingCapture>, now: u64, message: &str) -> (end: Option<
    CaptureEnd,
>)
    ensures
        *old(capture) is Some && (*old(capture))->0.deadline <= now ==> *final(capture) is None
            && end is Some && timed_out((*old(capture))->0, message@, end->0),
        !(*old(capture) is Some && (*old(capture))->0.deadline <= now) ==> end is None
            && *final(capture) == *old(capture),
{
    match take_overdue_capture(capture, now) {
        Some(overdue) => {
            let ghost waiting = overdue;
            let error = message.to_owned();
            let end = complete_capture(overdue, Err(error));
            assert(end.settles(waiting, Err(error)));
            Some(end)
        },
        None => None,
    }
}

/// `end` tells whoever asked for `capture` that it failed with `message`.
pub open spec fn timed_out(capture: PendingCapture, message: Seq<char>, end: CaptureEnd) -> bool {
    match capture.remote_request_id {
        Some(request_id) => {
            &&& end is Reply
            &&& end->request_id == request_id
            &&& end->result is Err
            &&& end->result->Err_0@ == message
        },
        None => end is Fail && end->Fail_0@ == message,
    }
}

/// A composition never starts without advancing the main world, and input
/// alone never starts one.
pub proof fn compositions_advance_the_main_world(
    input_pending: bool,
    composition_due: bool,
    remote_debug: bool,
    session_active: bool,
)
    ensures
        ({
            let work = work_due(input_pending, composition_due, remote_debug, session_active);
            &&& work.composition_advance ==> work.advance_main
            &&& work.advance_main ==> work.composition_advance || input_pending
            &&& !session_active ==> !work.composition_advance
            &&& !composition_due && !remote_debug ==> !work.composition_advance
        }),
{
}

/// A loop that sleeps for as long as it is told wakes up just when the next
/// composition may start.
pub proof fn sleeping_ends_when_the_composition_is_due(state: FrameState, now: u64)
    requires
        state.dirty,
    ensures
        now + state.time_left(now) <= u64::MAX,
        state.composable((now + state.time_left(now)) as u64),
        state.time_left(now) > 0 ==> forall|earlier: u64|
            now <= earlier < now + state.time_left(now) ==> !state.composable(earlier),
{
}

/// Input always advances the main world, and in an active session a composition
/// that is due or wanted for debugging is always made.
pub proof fn due_work_is_done(
    input_pending: bool,
    composition_due: bool,
    remote_debug: bool,
    session_active: bool,
)
    ensures
        ({
            let work = work_due(input_pending, composition_due, remote_debug, session_active);
            &&& input_pending ==> work.advance_main
            &&& session_active && composition_due ==> work.composition_advance
            &&& session_active && remote_debug ==> work.composition_advance
        }),
{
}

/// What is left until a deadline and the time that it is seen from sum up to the
/// deadline; once that has passed nothing is left.
pub proof fn time_left_ends_at_the_deadline(state: FrameState, deadline: u64, now: u64)
    ensures
        now <= deadline ==> now + remaining(deadline, now) == deadline,
        now >= deadline ==> remaining(deadline, now) == 0,
        state.next_composition is None ==> state.time_left(now) == 0 && state.composable(now),
        state.next_composition == Some(deadline) ==> state.time_left(now) == remaining(
            deadline,
            now,
        ) && (state.composable(now) <==> deadline <= now),
{
}

/// A screenshot that a client asked for is answered to that very request, with
/// what came of it. The one asked for at startup ends the program, well or with
/// its error.
pub proof fn screenshots_are_answered_to_who_asked(
    capture: PendingCapture,
    result: Result<(), String>,
    end: CaptureEnd,
)
    requires
        end.settles(capture, result),
    ensures
        capture.remote_request_id matches Some(id) ==> (end matches CaptureEnd::Reply {
            request_id,
            result: told,
        } && request_id == id && told == result),
        capture.remote_request_id is None && result is Ok ==> end is Exit,
        capture.remote_request_id is None && result is Err ==> (end matches CaptureEnd::Fail(error)
            && error == result->Err_0),
{
}

/// A screenshot whose time is up fails with the given words, for whoever asked.
pub proof fn late_screenshots_fail(
    capture: PendingCapture,
    message: Seq<char>,
    end: CaptureEnd,
)
    requires
        timed_out(capture, message, end),
    ensures
        capture.remote_request_id matches Some(id) ==> (end matches CaptureEnd::Reply {
            request_id,
            result,
        } && request_id == id && result is Err && result->Err_0@ == message),
        capture.remote_request_id is None ==> (end matches CaptureEnd::Fail(error) && error@
            == message),
{
}

/// A screenshot that waits for a client is taken only once a client shows
/// something; any other can be taken at once.
pub proof fn screenshots_wait_for_a_client(capture: PendingCapture)
    ensures
        capture.takeable(true),
        capture.takeable(false) <==> !capture.wait_for_client,
{
}

/// A composition that was rendered is to be shown and is up to date. The next one
/// may not start before an interval has passed, and may start then.
pub proof fn rendered_compositions_are_shown_next(state: &mut FrameState, now: u64)
    requires
        call_ensures(FrameState::composition_rendered, (state, now), ()),
        now + old(state).interval <= u64::MAX,
    ensures
        !final(state).dirty && final(state).unpresented,
        final(state).interval == old(state).interval,
        final(state).composable((now + old(state).interval) as u64),
        forall|early: u64| early < now + old(state).interval ==> !final(state).composable(early),
{
}

/// A composition is made just if one is asked for and may start, and shown just
/// if it is not shown yet and no newer one is asked for.
pub proof fn compositions_are_made_when_asked_for(
    state: &FrameState,
    now: u64,
    due: bool,
    shown: bool,
)
    requires
        call_ensures(FrameState::composition_due, (state, now), due),
        call_ensures(FrameState::presentation_due, (state,), shown),
    ensures
        due ==> state.dirty && (state.next_composition matches Some(start) ==> start <= now),
        state.dirty && state.next_composition is None ==> due,
        state.dirty && state.next_composition is Some && state.next_composition->0 <= now ==> due,
        shown <==> state.unpresented && !state.dirty,
        !(due && shown),
{
}

/// A loop that polls never sleeps longer than until the composition that is asked
/// for may start; without one it sleeps for an interval.
pub proof fn polling_loops_wake_in_time(state: &FrameState, now: u64, active: bool, timeout: u64)
    requires
        call_ensures(FrameState::composition_timeout, (state, now, active), timeout),
    ensures
        state.dirty && active && state.next_composition is Some ==> (if now
            <= state.next_composition->0 {
            now + timeout == state.next_composition->0
        } else {
            timeout == 0
        }),
        state.dirty && active && state.next_composition is None ==> timeout == 0,
        !state.dirty || !active ==> timeout == state.interval,
{
}

/// The interval of an output is as long as a refresh takes: a thousand seconds'
/// worth of nanoseconds hold as many intervals as the rate has millihertz.
pub proof fn intervals_match_the_refresh_rate(
    state: FrameState,
    millihertz: u32,
    after: FrameState,
)
    requires
        millihertz > 0,
        call_ensures(FrameState::with_refresh_millihertz, (state, millihertz), after),
    ensures
        after.interval * millihertz <= 1_000_000_000_000,
        1_000_000_000_000 < (after.interval + 1) * millihertz,
        after.dirty == state.dirty && after.unpresented == state.unpresented,
        after.next_composition == state.next_composition,
{
    let whole: int = 1_000_000_000_000;
    let rate: int = millihertz as int;
    let interval: int = after.interval as int;
    vstd::arithmetic::div_mod::lemma_fundamental_div_mod(whole, rate);
    assert(interval == whole / rate);
    assert(interval * rate <= whole && whole < (interval + 1) * rate) by (nonlinear_arith)
        requires
            rate > 0,
            whole == rate * interval + whole % rate,
            0 <= whole % rate < rate,
    ;
}

/// A screenshot is given up just when its deadline has come, and then does not
/// wait any more.
pub proof fn overdue_screenshots_are_given_up(
    capture: &mut Option<PendingCapture>,
    now: u64,
    taken: Option<PendingCapture>,
)
    requires
        call_ensures(take_overdue_capture, (capture, now), taken),
    ensures
        taken matches Some(late) ==> late.deadline <= now && *old(capture) == Some(late)
            && *final(capture) is None,
        taken is None ==> *final(capture) == *old(capture),
        taken is None && *final(capture) is Some ==> now < (*final(capture))->0.deadline,
{
}

/// A request for a composition or a presentation is one for just that.
pub proof fn requests_ask_for_one_thing(composed: &mut FrameState, shown: &mut FrameState)
    requires
        call_ensures(FrameState::request_composition, (composed,), ()),
        call_ensures(FrameState::request_present, (shown,), ()),
    ensures
        final(composed).dirty && final(composed).unpresented == old(composed).unpresented,
        final(shown).unpresented && final(shown).dirty == old(shown).dirty,
        final(composed).next_composition == old(composed).next_composition,
        final(shown).next_composition == old(shown).next_composition,
        final(composed).interval == old(composed).interval && final(shown).interval == old(
            shown,
        ).interval,
{
}

/// A screenshot of the command line answers to nobody and may wait for a client;
/// one of a remote client answers to its request and does not wait.
pub proof fn screenshots_know_who_asked(
    path: String,
    wait_for_client: bool,
    request_id: u64,
    deadline: u64,
    own: PendingCapture,
    remote: PendingCapture,
)
    requires
        call_ensures(PendingCapture::startup, (path, wait_for_client, deadline), own),
        call_ensures(PendingCapture::remote, (request_id, path, deadline), remote),
    ensures
        own.remote_request_id is None && own.wait_for_client == wait_for_client,
        remote.remote_request_id == Some(request_id) && !remote.wait_for_client,
        own.path == path && remote.path == path,
        own.deadline == deadline && remote.deadline == deadline,
{
}

} // verus!
