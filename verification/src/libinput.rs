//! Standalone input devices as a source of raw seat events.

use vstd::prelude::*;

use crate::number::Real64;
use crate::raw_input::{
    ButtonState, InputPosition, LinuxButtonCode, LinuxKeycode, RawScrollFrame, RawScrollPhase,
    RawScrollSource, RawSeatEvent, RawSeatEventKind,
};

verus! {

/// Source of a device's scroll event.
#[derive(Clone, Copy, Debug, PartialEq, Eq, Structural)]
pub enum DeviceAxisSource {
    Wheel,
    WheelTilt,
    Finger,
    Continuous,
}

/// A device event, with positions already in output coordinates.
#[derive(Clone, Copy, Debug, PartialEq, Eq, Structural)]
pub enum DeviceEvent {
    /// `code` carries the protocol offset of eight.
    Keyboard { code: u32, state: ButtonState, time: u32 },
    /// The pointer would move to `position`.
    PointerMotion { position: InputPosition, time: u32 },
    PointerButton { button: LinuxButtonCode, state: ButtonState, time: u32 },
    PointerAxis {
        source: DeviceAxisSource,
        horizontal: Option<Real64>,
        vertical: Option<Real64>,
        horizontal_v120: Option<i32>,
        vertical_v120: Option<i32>,
        time: u32,
    },
    Other,
}

/// Which axes a finger is scrolling along.
#[derive(Clone, Copy, Debug, PartialEq, Eq, Structural)]
pub struct ActiveScrollAxes {
    pub horizontal: bool,
    pub vertical: bool,
}

impl ActiveScrollAxes {
    pub open spec fn any(self) -> bool {
        self.horizontal || self.vertical
    }
}

/// Whether an amount is present and zero.
pub open spec fn is_stop(amount: Option<Real64>) -> bool {
    amount matches Some(value) && value.same(Real64 { bits: 0 })
}

/// Whether an axis scrolls after an amount: a nonzero amount starts it, a zero
/// one stops it.
pub open spec fn scrolls_after(before: bool, amount: Option<Real64>) -> bool {
    match amount {
        Some(_) => !is_stop(amount),
        None => before,
    }
}

/// The scrolling axes after an event.
pub open spec fn axes_after(
    axes: ActiveScrollAxes,
    source: RawScrollSource,
    horizontal: Option<Real64>,
    vertical: Option<Real64>,
) -> ActiveScrollAxes {
    if source is Finger {
        ActiveScrollAxes {
            horizontal: scrolls_after(axes.horizontal, horizontal),
            vertical: scrolls_after(axes.vertical, vertical),
        }
    } else {
        axes
    }
}

/// The phase of a gesture whose axes change from `before` to `after`.
pub open spec fn scroll_phase(
    source: RawScrollSource,
    before: ActiveScrollAxes,
    after: ActiveScrollAxes,
) -> RawScrollPhase {
    if source is Finger && !before.any() && after.any() {
        RawScrollPhase::Started
    } else if source is Finger && before.any() && !after.any() {
        RawScrollPhase::Ended
    } else {
        RawScrollPhase::Moved
    }
}

/// An optional amount, zero where it is missing.
pub open spec fn amount_or_zero(amount: Option<Real64>) -> Real64 {
    match amount {
        Some(value) => value,
        None => Real64 { bits: 0 },
    }
}

/// The scroll source of a device's axis source.
pub open spec fn scroll_source(source: DeviceAxisSource) -> RawScrollSource {
    match source {
        DeviceAxisSource::Wheel | DeviceAxisSource::WheelTilt => RawScrollSource::Wheel,
        DeviceAxisSource::Finger => RawScrollSource::Finger,
        DeviceAxisSource::Continuous => RawScrollSource::Continuous,
    }
}

fn is_zero(amount: Option<Real64>) -> (zero: bool)
    ensures
        zero == is_stop(amount),
{
    match amount {
        Some(value) => value.equals(Real64::zero()),
        None => false,
    }
}

fn or_zero(amount: Option<Real64>) -> (value: Real64)
    ensures
        value == amount_or_zero(amount),
{
    match amount {
        Some(value) => value,
        None => Real64::zero(),
    }
}

/// Pointer and gesture state of the standalone seat.
#[derive(Clone, Copy, Debug, PartialEq, Eq, Structural)]
pub struct LibinputAdapter {
    /// Largest coordinates inside the output.
    pub limit: InputPosition,
    pub pointer: InputPosition,
    pub finger_axes: ActiveScrollAxes,
}

impl LibinputAdapter {
    /// The output's largest coordinates are not negative.
    pub open spec fn wf(self) -> bool {
        !self.limit.x.nan() && !self.limit.y.nan() && self.limit.x.rank() >= 0
            && self.limit.y.rank() >= 0
    }

    /// `value` limited to `[0, limit]`.
    pub open spec fn limited(value: Real64, limit: Real64) -> Real64 {
        if value.below(Real64 { bits: 0 }) {
            Real64 { bits: 0 }
        } else if limit.below(value) {
            limit
        } else {
            value
        }
    }

    /// `position` moved inside the output.
    pub open spec fn inside(self, position: InputPosition) -> InputPosition {
        InputPosition {
            x: LibinputAdapter::limited(position.x, self.limit.x),
            y: LibinputAdapter::limited(position.y, self.limit.y),
        }
    }

    /// The scroll frame of an axis event.
    pub open spec fn frame(
        self,
        source: RawScrollSource,
        horizontal: Option<Real64>,
        vertical: Option<Real64>,
        horizontal_v120: Option<i32>,
        vertical_v120: Option<i32>,
    ) -> RawScrollFrame {
        RawScrollFrame {
            source,
            phase: scroll_phase(
                source,
                self.finger_axes,
                axes_after(self.finger_axes, source, horizontal, vertical),
            ),
            horizontal: amount_or_zero(horizontal),
            vertical: amount_or_zero(vertical),
            horizontal_v120,
            vertical_v120,
            horizontal_stop: source is Finger && is_stop(horizontal),
            vertical_stop: source is Finger && is_stop(vertical),
        }
    }

    /// The state after a device event.
    pub open spec fn after(self, event: DeviceEvent) -> LibinputAdapter {
        match event {
            DeviceEvent::PointerMotion { position, .. } => LibinputAdapter {
                pointer: self.inside(position),
                ..self
            },
            DeviceEvent::PointerAxis { source, horizontal, vertical, .. } => LibinputAdapter {
                finger_axes: axes_after(
                    self.finger_axes,
                    scroll_source(source),
                    horizontal,
                    vertical,
                ),
                ..self
            },
            _ => self,
        }
    }

    /// The raw event of a device event.
    pub open spec fn converted(self, event: DeviceEvent) -> Option<RawSeatEvent> {
        match event {
            DeviceEvent::Keyboard { code, state, time } => if code < 8 {
                None
            } else {
                Some(
                    RawSeatEvent {
                        event: RawSeatEventKind::Keyboard {
                            keycode: LinuxKeycode((code - 8) as u32),
                            logical_key: None,
                            state,
                        },
                        time,
                    },
                )
            },
            DeviceEvent::PointerMotion { position, time } => Some(
                RawSeatEvent {
                    event: RawSeatEventKind::PointerMotion { position: self.inside(position) },
                    time,
                },
            ),
            DeviceEvent::PointerButton { button, state, time } => Some(
                RawSeatEvent {
                    event: RawSeatEventKind::PointerButton {
                        position: Some(self.pointer),
                        button,
                        state,
                    },
                    time,
                },
            ),
            DeviceEvent::PointerAxis {
                source,
                horizontal,
                vertical,
                horizontal_v120,
                vertical_v120,
                time,
            } => Some(
                RawSeatEvent {
                    event: RawSeatEventKind::PointerAxis {
                        position: Some(self.pointer),
                        axis: self.frame(
                            scroll_source(source),
                            horizontal,
                            vertical,
                            horizontal_v120,
                            vertical_v120,
                        ),
                    },
                    time,
                },
            ),
            DeviceEvent::Other => None,
        }
    }

    /// A seat with the pointer at `center` of an output that ends at `limit`.
    pub fn new(center: InputPosition, limit: InputPosition) -> (adapter: LibinputAdapter)
        ensures
            adapter.pointer == center,
            adapter.limit == limit,
            !adapter.finger_axes.any(),
    {
        LibinputAdapter {
            limit,
            pointer: center,
            finger_axes: ActiveScrollAxes { horizontal: false, vertical: false },
        }
    }

    /// The event that puts the pointer in its first place.
    pub fn initial_event(&self) -> (event: RawSeatEvent)
        ensures
            event == (RawSeatEvent {
                event: RawSeatEventKind::PointerMotion { position: self.pointer },
                time: 0,
            }),
    {
        RawSeatEvent::new(RawSeatEventKind::PointerMotion { position: self.pointer }, 0)
    }

    /// `position` moved inside the output.
    pub fn clamp(&self, position: InputPosition) -> (limited: InputPosition)
        requires
            self.wf(),
        ensures
            limited == self.inside(position),
    {
        InputPosition::new(
            position.x.clamp(Real64::zero(), self.limit.x),
            position.y.clamp(Real64::zero(), self.limit.y),
        )
    }

    /// Notes an axis event and returns its frame.
    pub fn scroll_frame(
        &mut self,
        source: RawScrollSource,
        horizontal: Option<Real64>,
        vertical: Option<Real64>,
        horizontal_v120: Option<i32>,
        vertical_v120: Option<i32>,
    ) -> (frame: RawScrollFrame)
        ensures
            frame == old(self).frame(
                source,
                horizontal,
                vertical,
                horizontal_v120,
                vertical_v120,
            ),
            *final(self) == (LibinputAdapter {
                finger_axes: axes_after(old(self).finger_axes, source, horizontal, vertical),
                ..*old(self)
            }),
    {
        let finger: bool = matches!(source, RawScrollSource::Finger);
        let was_active: bool = self.finger_axes.horizontal || self.finger_axes.vertical;
        let horizontal_stop: bool = finger && is_zero(horizontal);
        let vertical_stop: bool = finger && is_zero(vertical);
        if finger {
            if horizontal_stop {
                self.finger_axes.horizontal = false;
            } else if horizontal.is_some() {
                self.finger_axes.horizontal = true;
            }
            if vertical_stop {
                self.finger_axes.vertical = false;
            } else if vertical.is_some() {
                self.finger_axes.vertical = true;
            }
        }
        let is_active: bool = self.finger_axes.horizontal || self.finger_axes.vertical;
        let phase: RawScrollPhase = if !finger {
            RawScrollPhase::Moved
        } else if !was_active && is_active {
            RawScrollPhase::Started
        } else if was_active && !is_active {
            RawScrollPhase::Ended
        } else {
            RawScrollPhase::Moved
        };
        RawScrollFrame {
            source,
            phase,
            horizontal: or_zero(horizontal),
            vertical: or_zero(vertical),
            horizontal_v120,
            vertical_v120,
            horizontal_stop,
            vertical_stop,
        }
    }

    /// Notes a device event and returns its raw event, if it has one.
    pub fn convert(&mut self, event: DeviceEvent) -> (raw: Option<RawSeatEvent>)
        requires
            old(self).wf(),
        ensures
            raw == old(self).converted(event),
            *final(self) == old(self).after(event),
            final(self).wf(),
    {
        match event {
            DeviceEvent::Keyboard { code, state, time } => match code.checked_sub(8) {
                Some(keycode) => Some(
                    RawSeatEvent::new(
                        RawSeatEventKind::Keyboard {
                            keycode: LinuxKeycode(keycode),
                            logical_key: None,
                            state,
                        },
                        time,
                    ),
                ),
                None => None,
            },
            DeviceEvent::PointerMotion { position, time } => {
                self.pointer = self.clamp(position);
                Some(
                    RawSeatEvent::new(
                        RawSeatEventKind::PointerMotion { position: self.pointer },
                        time,
                    ),
                )
            },
            DeviceEvent::PointerButton { button, state, time } => Some(
                RawSeatEvent::new(
                    RawSeatEventKind::PointerButton {
                        position: Some(self.pointer),
                        button,
                        state,
                    },
                    time,
                ),
            ),
            DeviceEvent::PointerAxis {
                source,
                horizontal,
                vertical,
                horizontal_v120,
                vertical_v120,
                time,
            } => {
                let source: RawScrollSource = match source {
                    DeviceAxisSource::Wheel | DeviceAxisSource::WheelTilt => RawScrollSource::Wheel,
                    DeviceAxisSource::Finger => RawScrollSource::Finger,
                    DeviceAxisSource::Continuous => RawScrollSource::Continuous,
                };
                let pointer = self.pointer;
                let axis = self.scroll_frame(
                    source,
                    horizontal,
                    vertical,
                    horizontal_v120,
                    vertical_v120,
                );
                Some(
                    RawSeatEvent::new(
                        RawSeatEventKind::PointerAxis { position: Some(pointer), axis },
                        time,
                    ),
                )
            },
            DeviceEvent::Other => None,
        }
    }
}

/// A pointer that moves stays inside the output.
pub proof fn pointers_stay_inside_the_output(adapter: LibinputAdapter, position: InputPosition)
    requires
        adapter.wf(),
        !position.x.nan(),
        !position.y.nan(),
    ensures
        0 <= adapter.inside(position).x.rank() <= adapter.limit.x.rank(),
        0 <= adapter.inside(position).y.rank() <= adapter.limit.y.rank(),
{
}

/// A gesture starts with the first moving axis and ends with the last stopped
/// one.
pub proof fn gestures_start_and_end_once(
    axes: ActiveScrollAxes,
    horizontal: Option<Real64>,
    vertical: Option<Real64>,
)
    ensures
        ({
            let after = axes_after(axes, RawScrollSource::Finger, horizontal, vertical);
            let phase = scroll_phase(RawScrollSource::Finger, axes, after);
            &&& phase is Started <==> !axes.any() && after.any()
            &&& phase is Ended <==> axes.any() && !after.any()
        }),
{
}

/// A key is handed on in the state that it is in, at its time, under the code 8
/// below the device's; codes below that are no keys.
pub proof fn keys_are_handed_on(
    adapter: LibinputAdapter,
    code: u32,
    state: ButtonState,
    time: u32,
)
    ensures
        ({
            let event = DeviceEvent::Keyboard { code, state, time };
            let raw = adapter.converted(event);
            &&& raw is Some <==> code >= 8
            &&& raw matches Some(key) ==> {
                &&& key.time == time
                &&& key.event matches RawSeatEventKind::Keyboard {
                    keycode,
                    logical_key,
                    state: told,
                }
                &&& keycode.0 + 8 == code && logical_key is None && told == state
            }
            &&& adapter.after(event) == adapter
        }),
{
}

/// A motion is handed on to a place inside the output, where the pointer is from
/// then on: the asked place where that is inside, and the nearest edge on each
/// axis where it is not.
pub proof fn motions_are_handed_on_inside(
    adapter: LibinputAdapter,
    position: InputPosition,
    time: u32,
)
    requires
        adapter.wf(),
        !position.x.nan(),
        !position.y.nan(),
    ensures
        ({
            let event = DeviceEvent::PointerMotion { position, time };
            let raw = adapter.converted(event);
            let pointer = adapter.after(event).pointer;
            &&& raw matches Some(motion)
            &&& motion.time == time
            &&& motion.event matches RawSeatEventKind::PointerMotion { position: place }
            &&& place == pointer
            &&& 0 <= position.x.rank() <= adapter.limit.x.rank() ==> place.x == position.x
            &&& 0 <= position.y.rank() <= adapter.limit.y.rank() ==> place.y == position.y
            &&& position.x.rank() < 0 ==> place.x.bits == 0
            &&& position.y.rank() < 0 ==> place.y.bits == 0
            &&& position.x.rank() > adapter.limit.x.rank() ==> place.x == adapter.limit.x
            &&& position.y.rank() > adapter.limit.y.rank() ==> place.y == adapter.limit.y
            &&& adapter.after(event).finger_axes == adapter.finger_axes
            &&& adapter.after(event).limit == adapter.limit
        }),
{
}

/// A button is handed on in the state that it is in, at its time and where the
/// pointer is.
pub proof fn buttons_are_handed_on_at_the_pointer(
    adapter: LibinputAdapter,
    button: LinuxButtonCode,
    state: ButtonState,
    time: u32,
)
    ensures
        ({
            let event = DeviceEvent::PointerButton { button, state, time };
            &&& adapter.converted(event) matches Some(raw)
            &&& raw.time == time
            &&& raw.event == (RawSeatEventKind::PointerButton {
                position: Some(adapter.pointer),
                button,
                state,
            })
            &&& adapter.after(event) == adapter
        }),
        adapter.converted(DeviceEvent::Other) is None,
        adapter.after(DeviceEvent::Other) == adapter,
{
}

/// A scroll is handed on where the pointer is, at its time, each amount and each
/// number of steps on its own axis, with zero for an amount that is missing. Only
/// a finger stops an axis, by an amount of zero. The pointer stays.
pub proof fn scrolls_are_handed_on_by_axis(
    adapter: LibinputAdapter,
    source: DeviceAxisSource,
    horizontal: Option<Real64>,
    vertical: Option<Real64>,
    horizontal_v120: Option<i32>,
    vertical_v120: Option<i32>,
    time: u32,
)
    ensures
        ({
            let event = DeviceEvent::PointerAxis {
                source,
                horizontal,
                vertical,
                horizontal_v120,
                vertical_v120,
                time,
            };
            let finger = source is Finger;
            &&& adapter.converted(event) matches Some(raw)
            &&& raw.time == time
            &&& raw.event matches RawSeatEventKind::PointerAxis { position, axis }
            &&& position == Some(adapter.pointer)
            &&& axis.source is Wheel <==> source is Wheel || source is WheelTilt
            &&& axis.source is Finger <==> source is Finger
            &&& axis.source is Continuous <==> source is Continuous
            &&& horizontal matches Some(amount) ==> axis.horizontal == amount
            &&& horizontal is None ==> axis.horizontal.bits == 0
            &&& vertical matches Some(amount) ==> axis.vertical == amount
            &&& vertical is None ==> axis.vertical.bits == 0
            &&& axis.horizontal_v120 == horizontal_v120 && axis.vertical_v120 == vertical_v120
            &&& axis.horizontal_stop <==> finger && horizontal is Some && (horizontal->0).bits
                % 0x8000_0000_0000_0000 == 0
            &&& axis.vertical_stop <==> finger && vertical is Some && (vertical->0).bits
                % 0x8000_0000_0000_0000 == 0
            &&& !finger ==> axis.phase is Moved && adapter.after(event) == adapter
            &&& adapter.after(event).pointer == adapter.pointer
            &&& adapter.after(event).limit == adapter.limit
        }),
{
}

/// A finger moves along an axis from its first amount that is not zero to the
/// next one that is; an event without an amount for an axis leaves the axis as
/// it is.
pub proof fn fingers_move_until_they_stop(
    axes: ActiveScrollAxes,
    horizontal: Option<Real64>,
    vertical: Option<Real64>,
)
    ensures
        ({
            let after = axes_after(axes, RawScrollSource::Finger, horizontal, vertical);
            &&& horizontal is None ==> after.horizontal == axes.horizontal
            &&& vertical is None ==> after.vertical == axes.vertical
            &&& horizontal matches Some(amount) ==> (after.horizontal <==> amount.bits
                % 0x8000_0000_0000_0000 != 0)
            &&& vertical matches Some(amount) ==> (after.vertical <==> amount.bits
                % 0x8000_0000_0000_0000 != 0)
        }),
        axes.any() <==> axes.horizontal || axes.vertical,
{
}

/// The first event of a session tells where the pointer is.
pub proof fn sessions_start_at_the_pointer(adapter: &LibinputAdapter, event: RawSeatEvent)
    requires
        call_ensures(LibinputAdapter::initial_event, (adapter,), event),
    ensures
        event.event matches RawSeatEventKind::PointerMotion { position } && position
            == adapter.pointer,
        event.time == 0,
{
}

} // verus!
