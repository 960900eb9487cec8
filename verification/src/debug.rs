//! Screenshot requests of a debugging client, and the status it polls.

use std::collections::VecDeque;
use vstd::prelude::*;

#[allow(unused_imports)]
use crate::text::decimal;
use crate::text::{same_text, write_decimal};

verus! {

/// Port that another listener of the same process takes.
pub const RENDER_REMOTE_PORT: u16 = 15_703;

pub const PROTOCOL_VERSION: u32 = 1;

/// Frames after which the session counts as ready.
pub const READY_FRAMES: u64 = 3;

#[derive(Clone, Debug)]
pub struct RemoteScreenshotRequest {
    pub request_id: u64,
    pub path: String,
}

/// What the client is told.
#[derive(Clone, Debug)]
pub struct RemoteDebugStatus {
    pub protocol_version: u32,
    pub frame: u64,
    pub ready: bool,
    pub idle: bool,
    pub last_request_id: u64,
    pub completed_request_id: u64,
    pub error: String,
}

impl Default for RemoteDebugStatus {
    fn default() -> (status: Self)
        ensures
            status.protocol_version == PROTOCOL_VERSION,
            status.frame == 0,
            !status.ready,
            status.idle,
            status.last_request_id == 0,
            status.completed_request_id == 0,
            status.error@ == Seq::<char>::empty(),
    {
        RemoteDebugStatus {
            protocol_version: PROTOCOL_VERSION,
            frame: 0,
            ready: false,
            idle: true,
            last_request_id: 0,
            completed_request_id: 0,
            error: String::new(),
        }
    }
}

/// A screenshot to take.
#[derive(Debug)]
pub struct CaptureRequest {
    pub request_id: u64,
    pub path: String,
}

/// Requests that wait, oldest first, and the one that is being served; zero
/// where none is.
pub struct DebugBridge {
    pub pending: VecDeque<CaptureRequest>,
    pub active_request_id: u64,
}

impl Default for DebugBridge {
    fn default() -> (bridge: Self)
        ensures
            bridge.pending@ == Seq::<CaptureRequest>::empty(),
            bridge.active_request_id == 0,
    {
        DebugBridge { pending: VecDeque::new(), active_request_id: 0 }
    }
}

/// The text of the error for a request whose number does not ascend.
pub open spec fn stale_request_text(request_id: u64, last_request_id: u64) -> Seq<char> {
    "request_id "@ + decimal(request_id as nat) + " must be greater than "@ + decimal(
        last_request_id as nat,
    )
}

fn stale_request_error(request_id: u64, last_request_id: u64) -> (error: String)
    ensures
        error@ == stale_request_text(request_id, last_request_id),
{
    let mut error = "request_id ".to_owned();
    write_decimal(&mut error, request_id);
    error.append(" must be greater than ");
    write_decimal(&mut error, last_request_id);
    error
}

/// What a bridge and a status hold.
#[verifier::ext_equal]
pub struct RequestState {
    /// Requests that wait: number and path.
    pub pending: Seq<(u64, Seq<char>)>,
    pub active_request_id: u64,
    pub protocol_version: u32,
    pub frame: u64,
    pub ready: bool,
    pub idle: bool,
    pub last_request_id: u64,
    pub completed_request_id: u64,
    pub error: Seq<char>,
}

/// What a bridge and a status hold.
pub open spec fn request_state(bridge: DebugBridge, status: RemoteDebugStatus) -> RequestState {
    RequestState {
        pending: bridge.pending@.map_values(|request: CaptureRequest| (request.request_id, request.path@)),
        active_request_id: bridge.active_request_id,
        protocol_version: status.protocol_version,
        frame: status.frame,
        ready: status.ready,
        idle: status.idle,
        last_request_id: status.last_request_id,
        completed_request_id: status.completed_request_id,
        error: status.error@,
    }
}

impl RequestState {
    /// The state after one request. Numbers must ascend and paths must not be
    /// empty; a request that is refused is completed at once, with an error.
    pub open spec fn taken(self, request_id: u64, path: Seq<char>) -> RequestState {
        if request_id <= self.last_request_id {
            RequestState {
                error: stale_request_text(request_id, self.last_request_id),
                completed_request_id: if request_id > self.completed_request_id {
                    request_id
                } else {
                    self.completed_request_id
                },
                ..self
            }
        } else if path.len() == 0 {
            RequestState {
                last_request_id: request_id,
                error: "screenshot path must not be empty"@,
                completed_request_id: request_id,
                ..self
            }
        } else {
            RequestState {
                pending: self.pending.push((request_id, path)),
                last_request_id: request_id,
                error: Seq::empty(),
                ..self
            }
        }
    }

    /// The state with one more frame counted.
    pub open spec fn counted(self) -> RequestState {
        let frame = if self.frame == u64::MAX {
            u64::MAX
        } else {
            (self.frame + 1) as u64
        };
        RequestState { frame, ready: frame >= READY_FRAMES, ..self }
    }

    /// The state with word of whether there is anything to do.
    pub open spec fn reported(self) -> RequestState {
        RequestState { idle: self.pending.len() == 0 && self.active_request_id == 0, ..self }
    }

    /// The state after several requests, in order.
    pub open spec fn all_taken(self, requests: Seq<RemoteScreenshotRequest>) -> RequestState
        decreases requests.len(),
    {
        if requests.len() == 0 {
            self
        } else {
            self.all_taken(requests.drop_last()).taken(
                requests.last().request_id,
                requests.last().path@,
            )
        }
    }
}

/// Takes in one request.
pub fn accept_request(
    request: &RemoteScreenshotRequest,
    bridge: &mut DebugBridge,
    status: &mut RemoteDebugStatus,
)
    ensures
        request_state(*final(bridge), *final(status)) == request_state(
            *old(bridge),
            *old(status),
        ).taken(request.request_id, request.path@),
{
    if request.request_id <= status.last_request_id {
        status.error = stale_request_error(request.request_id, status.last_request_id);
        if request.request_id > status.completed_request_id {
            status.completed_request_id = request.request_id;
        }
        return;
    }
    status.last_request_id = request.request_id;
    if request.path.as_str().is_empty() {
        status.error = "screenshot path must not be empty".to_owned();
        status.completed_request_id = request.request_id;
        return;
    }
    status.error = String::new();
    bridge.pending.push_back(
        CaptureRequest { request_id: request.request_id, path: request.path.clone() },
    );
    assert(request_state(*bridge, *status).pending =~= request_state(
        *old(bridge),
        *old(status),
    ).pending.push((request.request_id, request.path@)));
}

/// Takes in the requests that came in with one frame, in order, and says
/// whether there is anything to do.
pub fn collect_remote_screenshot_requests(
    requests: &Vec<RemoteScreenshotRequest>,
    bridge: &mut DebugBridge,
    status: &mut RemoteDebugStatus,
)
    ensures
        request_state(*final(bridge), *final(status)) == request_state(
            *old(bridge),
            *old(status),
        ).counted().all_taken(requests@).reported(),
{
    let ghost counted = request_state(*bridge, *status).counted();
    status.frame = status.frame.saturating_add(1);
    status.ready = status.frame >= READY_FRAMES;
    assert(request_state(*bridge, *status) =~= counted);
    let mut i: usize = 0;
    while i < requests.len()
        invariant
            i <= requests@.len(),
            request_state(*bridge, *status) == counted.all_taken(requests@.take(i as int)),
        decreases requests@.len() - i,
    {
        proof {
            assert(requests@.take(i + 1).drop_last() =~= requests@.take(i as int));
            assert(requests@.take(i + 1).last() == requests@[i as int]);
        }
        accept_request(&requests[i], bridge, status);
        i = i + 1;
    }
    assert(requests@.take(i as int) =~= requests@);
    status.idle = bridge.pending.len() == 0 && bridge.active_request_id == 0;
}

/// Hands out the oldest request to be served.
pub fn take_capture_request(bridge: &mut DebugBridge, status: &mut RemoteDebugStatus) -> (request:
    Option<CaptureRequest>)
    ensures
        old(bridge).pending@.len() == 0 ==> request is None && *final(bridge) == *old(bridge)
            && *final(status) == *old(status),
        old(bridge).pending@.len() > 0 ==> {
            &&& request == Some(old(bridge).pending@[0])
            &&& final(bridge).pending@ == old(bridge).pending@.drop_first()
            &&& final(bridge).active_request_id == old(bridge).pending@[0].request_id
            &&& *final(status) == (RemoteDebugStatus { idle: false, ..*old(status) })
        },
{
    if bridge.pending.len() == 0 {
        return None;
    }
    let request = bridge.pending.pop_front();
    assert(bridge.pending@ =~= old(bridge).pending@.drop_first());
    if let Some(request) = request {
        bridge.active_request_id = request.request_id;
        status.idle = false;
        Some(request)
    } else {
        None
    }
}

/// Reports a served request as completed. A request that is not being served
/// is left alone.
pub fn complete_capture(
    bridge: &mut DebugBridge,
    status: &mut RemoteDebugStatus,
    request_id: u64,
    result: Result<(), String>,
)
    ensures
        old(bridge).active_request_id != request_id ==> *final(bridge) == *old(bridge)
            && *final(status) == *old(status),
        old(bridge).active_request_id == request_id ==> {
            &&& *final(bridge) == (DebugBridge { active_request_id: 0, ..*old(bridge) })
            &&& *final(status) == (RemoteDebugStatus {
                completed_request_id: request_id,
                idle: old(bridge).pending@.len() == 0,
                error: final(status).error,
                ..*old(status)
            })
            &&& final(status).error@ == (match result {
                Ok(()) => Seq::<char>::empty(),
                Err(error) => error@,
            })
        },
{
    if bridge.active_request_id != request_id {
        return;
    }
    bridge.active_request_id = 0;
    status.completed_request_id = request_id;
    status.error = match result {
        Ok(()) => String::new(),
        Err(error) => error,
    };
    status.idle = bridge.pending.len() == 0;
}

/// Why the debugging endpoint cannot be opened at an address.
#[derive(Clone, Copy, Debug, PartialEq, Eq, Structural)]
pub enum RemoteAddressError {
    NotLoopback,
    ReservedPort,
}

/// Accepts addresses that only this machine can reach, at a free port.
pub fn check_remote_address(loopback: bool, port: u16) -> (result: Result<(), RemoteAddressError>)
    ensures
        result == (if !loopback {
            Err::<(), _>(RemoteAddressError::NotLoopback)
        } else if port == RENDER_REMOTE_PORT {
            Err(RemoteAddressError::ReservedPort)
        } else {
            Ok(())
        }),
{
    if !loopback {
        return Err(RemoteAddressError::NotLoopback);
    }
    if port == RENDER_REMOTE_PORT {
        return Err(RemoteAddressError::ReservedPort);
    }
    Ok(())
}

/// A method that a debugging client may call.
#[derive(Clone, Copy, Debug, PartialEq, Eq, Structural)]
pub enum RemoteMethod {
    /// Says which methods there are.
    Discover,
    /// Hands in a message, such as a request for a screenshot.
    WriteMessage,
    /// Reads a resource, such as the status.
    GetResource,
}

impl RemoteMethod {
    /// The name that the protocol has for the method.
    pub open spec fn named(self) -> Seq<char> {
        match self {
            RemoteMethod::Discover => "rpc.discover"@,
            RemoteMethod::WriteMessage => "world.write_message"@,
            RemoteMethod::GetResource => "world.get_resources"@,
        }
    }

    pub fn name(self) -> (name: &'static str)
        ensures
            name@ == self.named(),
    {
        match self {
            RemoteMethod::Discover => "rpc.discover",
            RemoteMethod::WriteMessage => "world.write_message",
            RemoteMethod::GetResource => "world.get_resources",
        }
    }
}

/// A method that the protocol is missing.
#[derive(Clone, Copy, Debug, PartialEq, Eq, Structural)]
pub struct MissingMethod(pub RemoteMethod);

/// `place` is where `available` first has the method.
pub open spec fn first_offers(available: Seq<String>, method: RemoteMethod, place: int) -> bool {
    &&& 0 <= place < available.len()
    &&& available[place]@ == method.named()
    &&& forall|i: int| 0 <= i < place ==> (#[trigger] available[i])@ != method.named()
}

/// `available` has the method.
pub open spec fn offers(available: Seq<String>, method: RemoteMethod) -> bool {
    exists|i: int| 0 <= i < available.len() && (#[trigger] available[i])@ == method.named()
}

/// The methods that stay, in order.
pub open spec fn allowed_methods() -> Seq<RemoteMethod> {
    seq![RemoteMethod::Discover, RemoteMethod::WriteMessage, RemoteMethod::GetResource]
}

fn find_method(available: &Vec<String>, method: RemoteMethod) -> (place: Result<
    usize,
    MissingMethod,
>)
    ensures
        match place {
            Ok(place) => first_offers(available@, method, place as int),
            Err(missing) => missing == MissingMethod(method) && !offers(available@, method),
        },
{
    let name = method.name();
    let mut i: usize = 0;
    while i < available.len()
        invariant
            i <= available@.len(),
            name@ == method.named(),
            forall|k: int| 0 <= k < i ==> (#[trigger] available@[k])@ != method.named(),
        decreases available@.len() - i,
    {
        if same_text(available[i].as_str(), name) {
            return Ok(i);
        }
        i = i + 1;
    }
    Err(MissingMethod(method))
}

/// Restricts the methods that a debugging client may call to discovery, writing
/// messages and reading resources; their places among those available. Where
/// one of them is missing the endpoint is not opened.
pub fn restricted_methods(available: &Vec<String>) -> (places: Result<Vec<usize>, MissingMethod>)
    ensures
        match places {
            Ok(places) => {
                &&& places@.len() == allowed_methods().len()
                &&& forall|i: int|
                    0 <= i < places@.len() ==> first_offers(
                        available@,
                        allowed_methods()[i],
                        #[trigger] places@[i] as int,
                    )
            },
            Err(missing) => exists|i: int|
                {
                    &&& 0 <= i < allowed_methods().len()
                    &&& missing == MissingMethod(#[trigger] allowed_methods()[i])
                    &&& !offers(available@, allowed_methods()[i])
                    &&& forall|j: int|
                        0 <= j < i ==> offers(available@, #[trigger] allowed_methods()[j])
                },
        },
{
    let ghost allowed = allowed_methods();
    let discover: usize = match find_method(available, RemoteMethod::Discover) {
        Ok(place) => place,
        Err(missing) => {
            assert(missing == MissingMethod(allowed[0]));
            return Err(missing);
        },
    };
    assert(offers(available@, allowed[0])) by {
        assert(available@[discover as int]@ == allowed[0].named());
    }
    let write_message: usize = match find_method(available, RemoteMethod::WriteMessage) {
        Ok(place) => place,
        Err(missing) => {
            assert(missing == MissingMethod(allowed[1]));
            return Err(missing);
        },
    };
    assert(offers(available@, allowed[1])) by {
        assert(available@[write_message as int]@ == allowed[1].named());
    }
    let get_resource: usize = match find_method(available, RemoteMethod::GetResource) {
        Ok(place) => place,
        Err(missing) => {
            assert(missing == MissingMethod(allowed[2]));
            return Err(missing);
        },
    };
    let mut places: Vec<usize> = Vec::new();
    places.push(discover);
    places.push(write_message);
    places.push(get_resource);
    Ok(places)
}

/// Only the three methods stay callable: whatever else is available, the places
/// that stay hold just their names.
pub proof fn other_methods_are_refused(
    available: Seq<String>,
    places: Seq<usize>,
    name: Seq<char>,
)
    requires
        places.len() == allowed_methods().len(),
        forall|i: int|
            0 <= i < places.len() ==> first_offers(
                available,
                allowed_methods()[i],
                #[trigger] places[i] as int,
            ),
    ensures
        (exists|i: int| 0 <= i < places.len() && available[#[trigger] places[i] as int]@ == name)
            <==> (exists|i: int|
            0 <= i < allowed_methods().len() && (#[trigger] allowed_methods()[i]).named() == name),
{
    if exists|i: int|
        0 <= i < allowed_methods().len() && (#[trigger] allowed_methods()[i]).named() == name {
        let i = choose|i: int|
            0 <= i < allowed_methods().len() && (#[trigger] allowed_methods()[i]).named() == name;
        assert(first_offers(available, allowed_methods()[i], places[i] as int));
    }
    if exists|i: int| 0 <= i < places.len() && available[#[trigger] places[i] as int]@ == name {
        let i = choose|i: int|
            0 <= i < places.len() && available[#[trigger] places[i] as int]@ == name;
        assert(allowed_methods()[i].named() == name);
    }
}

/// A request that is refused is reported as completed, with an error; one that
/// is accepted waits to be served. Either way its number counts as seen.
pub proof fn every_request_is_answered(state: RequestState, request_id: u64, path: Seq<char>)
    requires
        state.completed_request_id <= state.last_request_id,
    ensures
        ({
            let after = state.taken(request_id, path);
            &&& after.completed_request_id <= after.last_request_id
            &&& after.last_request_id >= request_id
            &&& after.pending == state.pending ==> after.completed_request_id >= request_id
                && after.error.len() > 0
            &&& after.pending != state.pending ==> after.pending == state.pending.push(
                (request_id, path),
            ) && after.error.len() == 0
        }),
{
    reveal_strlit("request_id ");
    reveal_strlit("screenshot path must not be empty");
    let after = state.taken(request_id, path);
    if request_id > state.last_request_id && path.len() > 0 {
        assert(after.pending.len() == state.pending.len() + 1);
    }
}

/// A request whose number does not ascend is refused with both numbers in the
/// answer, and one without a path with its own words. Neither waits, and neither
/// touches what is being done.
pub proof fn refused_requests_are_explained(state: RequestState, request_id: u64, path: Seq<char>)
    ensures
        ({
            let after = state.taken(request_id, path);
            let refused = request_id <= state.last_request_id || path.len() == 0;
            &&& after.pending.len() == (if refused {
                state.pending.len()
            } else {
                state.pending.len() + 1
            })
            &&& refused ==> after.pending == state.pending
            &&& !refused ==> after.pending.last() == (request_id, path) && after.error.len() == 0
                && after.completed_request_id == state.completed_request_id
            &&& request_id <= state.last_request_id ==> after.error == "request_id "@ + decimal(
                request_id as nat,
            ) + " must be greater than "@ + decimal(state.last_request_id as nat)
                && after.last_request_id == state.last_request_id
            &&& request_id > state.last_request_id && path.len() == 0 ==> after.error
                == "screenshot path must not be empty"@ && after.completed_request_id == request_id
            &&& request_id > state.last_request_id ==> after.last_request_id == request_id
            &&& after.active_request_id == state.active_request_id && after.frame == state.frame
            &&& after.protocol_version == state.protocol_version && after.ready == state.ready
        }),
{
}

/// Frames are counted one by one, up to the last number, and the session is ready
/// from a fixed number of them on. It is idle while nothing waits and nothing is
/// being done.
pub proof fn sessions_get_ready_and_idle(state: RequestState)
    ensures
        state.frame < u64::MAX ==> state.counted().frame == state.frame + 1,
        state.frame == u64::MAX ==> state.counted().frame == u64::MAX,
        state.counted().ready <==> state.counted().frame >= READY_FRAMES,
        state.counted().pending == state.pending && state.counted().error == state.error,
        state.counted().last_request_id == state.last_request_id,
        state.reported().idle <==> state.pending.len() == 0 && state.active_request_id == 0,
        state.reported().pending == state.pending && state.reported().error == state.error,
        state.reported().frame == state.frame && state.reported().ready == state.ready,
        state.reported().last_request_id == state.last_request_id,
        state.reported().completed_request_id == state.completed_request_id,
{
}

/// Requests are taken in the order in which they come.
pub proof fn requests_are_taken_in_order(
    state: RequestState,
    requests: Seq<RemoteScreenshotRequest>,
    last: RemoteScreenshotRequest,
)
    ensures
        state.all_taken(Seq::empty()) == state,
        state.all_taken(requests.push(last)) == state.all_taken(requests).taken(
            last.request_id,
            last.path@,
        ),
{
    assert(requests.push(last).drop_last() =~= requests);
}

/// What is known of a bridge and its status is what they hold, field by field.
pub proof fn states_hold_what_the_status_says(bridge: DebugBridge, status: RemoteDebugStatus)
    ensures
        ({
            let state = request_state(bridge, status);
            &&& state.pending.len() == bridge.pending@.len()
            &&& forall|i: int|
                0 <= i < state.pending.len() ==> (#[trigger] state.pending[i]).0
                    == bridge.pending@[i].request_id && state.pending[i].1
                    == bridge.pending@[i].path@
            &&& state.active_request_id == bridge.active_request_id
            &&& state.frame == status.frame && state.ready == status.ready
            &&& state.idle == status.idle && state.error == status.error@
            &&& state.last_request_id == status.last_request_id
            &&& state.completed_request_id == status.completed_request_id
            &&& state.protocol_version == status.protocol_version
        }),
{
}

/// The three methods that stay have the names that debugging clients call them
/// by.
pub proof fn methods_have_their_names()
    ensures
        allowed_methods().len() == 3,
        allowed_methods()[0].named() == "rpc.discover"@,
        allowed_methods()[1].named() == "world.write_message"@,
        allowed_methods()[2].named() == "world.get_resources"@,
{
}

/// A method that is found is found where it first stands, under its own name; one
/// that is offered anywhere has such a place.
pub proof fn methods_are_found_at_their_first_place(
    available: Seq<String>,
    method: RemoteMethod,
    place: int,
    other: int,
)
    requires
        first_offers(available, method, place),
    ensures
        0 <= place < available.len(),
        available[place]@ == method.named(),
        offers(available, method),
        0 <= other < available.len() && available[other]@ == method.named() ==> place <= other,
        first_offers(available, method, other) ==> other == place,
{
}

/// Requests are handed out in the order in which they came, each once, and the
/// bridge is busy with the one that it handed out last.
pub proof fn requests_are_handed_out_once(
    bridge: &mut DebugBridge,
    status: &mut RemoteDebugStatus,
    request: Option<CaptureRequest>,
    i: int,
)
    requires
        call_ensures(take_capture_request, (bridge, status), request),
        0 <= i < final(bridge).pending@.len(),
    ensures
        request is Some ==> old(bridge).pending@ == seq![request->0] + final(bridge).pending@,
        request matches Some(taken) ==> final(bridge).active_request_id == taken.request_id,
        request is Some ==> !final(status).idle && final(status).last_request_id == old(
            status,
        ).last_request_id,
        request is Some ==> final(bridge).pending@[i] == old(bridge).pending@[i + 1],
{
}

/// A request is left waiting only if none waits: an idle bridge with a request
/// hands it out.
pub proof fn waiting_requests_are_handed_out(
    bridge: &mut DebugBridge,
    status: &mut RemoteDebugStatus,
    request: Option<CaptureRequest>,
)
    requires
        call_ensures(take_capture_request, (bridge, status), request),
    ensures
        request is None <==> old(bridge).pending@.len() == 0,
        request is Some ==> final(bridge).pending@.len() + 1 == old(bridge).pending@.len(),
        request is None ==> final(bridge).active_request_id == old(bridge).active_request_id
            && final(status).idle == old(status).idle,
{
}

/// The interface is opened for the machine itself only, and never on the port of
/// the renderer's own.
pub proof fn remote_addresses_are_local(
    loopback: bool,
    port: u16,
    result: Result<(), RemoteAddressError>,
)
    requires
        call_ensures(check_remote_address, (loopback, port), result),
    ensures
        result is Ok ==> loopback && port != 15_703,
        loopback && port != 15_703 ==> result is Ok,
        result matches Err(RemoteAddressError::ReservedPort) ==> loopback && port == 15_703,
        result matches Err(RemoteAddressError::NotLoopback) ==> !loopback,
{
}

} // verus!
