//! Lossless, backend-neutral seat input.

use vstd::prelude::*;

use crate::number::Real64;

verus! {

/// A position in the compositor's coordinate space.
#[derive(Clone, Copy, Debug, PartialEq, Eq, Structural)]
pub struct InputPosition {
    pub x: Real64,
    pub y: Real64,
}

impl InputPosition {
    pub fn new(x: Real64, y: Real64) -> (position: InputPosition)
        ensures
            position.x == x,
            position.y == y,
    {
        InputPosition { x, y }
    }

    /// IEEE equality of both coordinates.
    pub open spec fn same(self, other: InputPosition) -> bool {
        self.x.same(other.x) && self.y.same(other.y)
    }

    pub fn equals(self, other: InputPosition) -> (same: bool)
        ensures
            same == self.same(other),
    {
        self.x.equals(other.x) && self.y.equals(other.y)
    }

    /// The top-left corner.
    pub open spec fn origin() -> InputPosition {
        InputPosition { x: Real64 { bits: 0 }, y: Real64 { bits: 0 } }
    }
}

impl Default for InputPosition {
    fn default() -> (position: InputPosition)
        ensures
            position == InputPosition::origin(),
    {
        InputPosition { x: Real64::zero(), y: Real64::zero() }
    }
}

/// A Linux evdev keyboard code, without the protocol offset of eight.
#[derive(Clone, Copy, Debug, PartialEq, Eq, Hash, Structural)]
pub struct LinuxKeycode(pub u32);

/// A Linux input-event mouse button code such as `BTN_LEFT`.
#[derive(Clone, Copy, Debug, PartialEq, Eq, Hash, Structural)]
pub struct LinuxButtonCode(pub u32);

/// Identity of a logical key of the active keymap.
#[derive(Clone, Copy, Debug, PartialEq, Eq, Hash, Structural)]
pub struct LogicalKey(pub u64);

#[derive(Clone, Copy, Debug, PartialEq, Eq, Structural)]
pub enum ButtonState {
    Pressed,
    Released,
}

#[derive(Clone, Copy, Debug, PartialEq, Eq, Structural)]
pub enum RawScrollSource {
    Wheel,
    Finger,
    Continuous,
}

#[derive(Clone, Copy, Debug, PartialEq, Eq, Structural)]
pub enum RawScrollPhase {
    Started,
    Moved,
    Ended,
    Cancelled,
}

/// Scroll data in protocol axis direction and high-resolution wheel units.
#[derive(Clone, Copy, Debug, PartialEq, Eq, Structural)]
pub struct RawScrollFrame {
    pub source: RawScrollSource,
    pub phase: RawScrollPhase,
    pub horizontal: Real64,
    pub vertical: Real64,
    pub horizontal_v120: Option<i32>,
    pub vertical_v120: Option<i32>,
    pub horizontal_stop: bool,
    pub vertical_stop: bool,
}

#[allow(inconsistent_fields)]
#[derive(Clone, Copy, Debug, PartialEq, Eq, Structural)]
pub enum RawSeatEventKind {
    PointerMotion { position: InputPosition },
    PointerLeft { position: InputPosition },
    PointerButton { position: Option<InputPosition>, button: LinuxButtonCode, state: ButtonState },
    PointerAxis { position: Option<InputPosition>, axis: RawScrollFrame },
    Keyboard { keycode: LinuxKeycode, logical_key: Option<LogicalKey>, state: ButtonState },
    HostFocusLost,
}

/// One ordered input transition from a seat backend.
#[derive(Clone, Copy, Debug, PartialEq, Eq, Structural)]
pub struct RawSeatEvent {
    pub event: RawSeatEventKind,
    pub time: u32,
}

impl RawSeatEvent {
    pub fn new(event: RawSeatEventKind, time: u32) -> (raw: RawSeatEvent)
        ensures
            raw == (RawSeatEvent { event, time }),
    {
        RawSeatEvent { event, time }
    }
}

/// Where the host pointer is, and where it was last seen.
#[derive(Clone, Copy, Debug, PartialEq, Eq, Structural)]
pub struct PointerPositionState {
    pub host_position: Option<InputPosition>,
    pub last_known_position: InputPosition,
}

impl Default for PointerPositionState {
    fn default() -> (state: PointerPositionState)
        ensures
            state.host_position is None,
            state.last_known_position == InputPosition::origin(),
    {
        PointerPositionState { host_position: None, last_known_position: InputPosition::default() }
    }
}

impl PointerPositionState {
    /// The state with the pointer at `position`.
    pub open spec fn at(position: InputPosition) -> PointerPositionState {
        PointerPositionState { host_position: Some(position), last_known_position: position }
    }

    /// The state with the pointer at `position`, if the event names one.
    pub open spec fn at_if_known(self, position: Option<InputPosition>) -> PointerPositionState {
        match position {
            Some(position) => PointerPositionState::at(position),
            None => self,
        }
    }

    /// The state with the pointer off the host.
    pub open spec fn off_host(self) -> PointerPositionState {
        PointerPositionState {
            host_position: None,
            last_known_position: self.last_known_position,
        }
    }

    pub fn apply(&mut self, position: InputPosition)
        ensures
            *final(self) == PointerPositionState::at(position),
    {
        self.host_position = Some(position);
        self.last_known_position = position;
    }

    /// Clears host presence without discarding the location used for
    /// position-less button and axis events.
    pub fn clear_host(&mut self)
        ensures
            *final(self) == old(self).off_host(),
    {
        self.host_position = None;
    }
}

/// Two positions are the same just if they agree on both coordinates; the
/// origin is zero on both.
pub proof fn positions_go_by_coordinate(first: InputPosition, second: InputPosition)
    ensures
        first.same(second) <==> first.x.same(second.x) && first.y.same(second.y),
        InputPosition::origin().x.bits == 0,
        InputPosition::origin().y.bits == 0,
{
}

/// A pointer that leaves the host and comes back at a place without ever naming
/// another is known by that place throughout.
pub proof fn last_places_outlast_the_pointer(
    before: PointerPositionState,
    position: InputPosition,
)
    ensures
        before.at_if_known(Some(position)).host_position == Some(position),
        before.at_if_known(Some(position)).last_known_position == position,
        before.at_if_known(None) == before,
        before.off_host().host_position is None,
        before.off_host().last_known_position == before.last_known_position,
        PointerPositionState::at(position).off_host().last_known_position == position,
{
}

} // verus!
