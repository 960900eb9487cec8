//! Projection of raw seat input into action-level messages.
//!
//! Every raw event is kept for routing and at the same time translated into
//! the messages that pickers and action maps consume. Positions and scroll
//! amounts are handed on unconverted.

use vstd::prelude::*;

use crate::number::Real64;
use crate::raw_input::{
    ButtonState, InputPosition, LinuxButtonCode, LinuxKeycode, LogicalKey, PointerPositionState,
    RawScrollFrame, RawScrollPhase, RawSeatEvent, RawSeatEventKind,
};

verus! {

/// Pointer buttons that pickers know.
#[derive(Clone, Copy, Debug, PartialEq, Eq, Structural)]
pub enum PickingButton {
    Primary,
    Secondary,
    Middle,
}

/// Mouse buttons that action maps know.
#[derive(Clone, Copy, Debug, PartialEq, Eq, Structural)]
pub enum MouseButton {
    Left,
    Right,
    Middle,
    Back,
    Forward,
}

/// The picker's button of a Linux code.
pub open spec fn picking_button_of(code: u32) -> Option<PickingButton> {
    if code == 0x110 {
        Some(PickingButton::Primary)
    } else if code == 0x111 {
        Some(PickingButton::Secondary)
    } else if code == 0x112 {
        Some(PickingButton::Middle)
    } else {
        None
    }
}

/// The mouse button of a Linux code.
pub open spec fn mouse_button_of(code: u32) -> Option<MouseButton> {
    if code == 0x110 {
        Some(MouseButton::Left)
    } else if code == 0x111 {
        Some(MouseButton::Right)
    } else if code == 0x112 {
        Some(MouseButton::Middle)
    } else if code == 0x113 {
        Some(MouseButton::Back)
    } else if code == 0x114 {
        Some(MouseButton::Forward)
    } else {
        None
    }
}

pub fn pointer_button(button: LinuxButtonCode) -> (mapped: Option<PickingButton>)
    ensures
        mapped == picking_button_of(button.0),
{
    if button.0 == 0x110 {
        Some(PickingButton::Primary)
    } else if button.0 == 0x111 {
        Some(PickingButton::Secondary)
    } else if button.0 == 0x112 {
        Some(PickingButton::Middle)
    } else {
        None
    }
}

pub fn mouse_button(button: LinuxButtonCode) -> (mapped: Option<MouseButton>)
    ensures
        mapped == mouse_button_of(button.0),
{
    if button.0 == 0x110 {
        Some(MouseButton::Left)
    } else if button.0 == 0x111 {
        Some(MouseButton::Right)
    } else if button.0 == 0x112 {
        Some(MouseButton::Middle)
    } else if button.0 == 0x113 {
        Some(MouseButton::Back)
    } else if button.0 == 0x114 {
        Some(MouseButton::Forward)
    } else {
        None
    }
}

/// A scroll amount, still in protocol direction.
#[derive(Clone, Copy, Debug, PartialEq, Eq, Structural)]
pub enum ScrollAmount {
    /// Wheel steps in units of 1/120.
    Lines { horizontal_v120: i32, vertical_v120: i32 },
    Pixels { horizontal: Real64, vertical: Real64 },
}

/// A scroll amount and the phase of its gesture.
#[derive(Clone, Copy, Debug, PartialEq, Eq, Structural)]
pub struct ScrollMessage {
    pub amount: ScrollAmount,
    pub phase: RawScrollPhase,
}

/// The value of an optional wheel amount.
pub open spec fn steps(v120: Option<i32>) -> i32 {
    match v120 {
        Some(v120) => v120,
        None => 0,
    }
}

/// The scroll message of a frame: wheel steps where it has any, pixels otherwise.
pub open spec fn scroll_message(axis: RawScrollFrame) -> ScrollMessage {
    ScrollMessage {
        amount: if axis.horizontal_v120 is Some || axis.vertical_v120 is Some {
            ScrollAmount::Lines {
                horizontal_v120: steps(axis.horizontal_v120),
                vertical_v120: steps(axis.vertical_v120),
            }
        } else {
            ScrollAmount::Pixels { horizontal: axis.horizontal, vertical: axis.vertical }
        },
        phase: axis.phase,
    }
}

pub fn bevy_scroll(axis: RawScrollFrame) -> (message: ScrollMessage)
    ensures
        message == scroll_message(axis),
{
    let amount: ScrollAmount = match (axis.horizontal_v120, axis.vertical_v120) {
        (None, None) => ScrollAmount::Pixels {
            horizontal: axis.horizontal,
            vertical: axis.vertical,
        },
        (horizontal, vertical) => {
            let horizontal_v120: i32 = match horizontal {
                Some(v120) => v120,
                None => 0,
            };
            let vertical_v120: i32 = match vertical {
                Some(v120) => v120,
                None => 0,
            };
            ScrollAmount::Lines { horizontal_v120, vertical_v120 }
        },
    };
    ScrollMessage { amount, phase: axis.phase }
}

/// A message for pickers or action maps.
#[allow(inconsistent_fields)]
#[derive(Clone, Copy, Debug, PartialEq, Eq, Structural)]
pub enum ProjectedMessage {
    /// Motion of the mouse from one position to another.
    MouseMotion { from: InputPosition, to: InputPosition },
    /// The picking pointer moves; without `from` its delta is zero.
    PointerMove { from: Option<InputPosition>, to: InputPosition },
    /// The picking pointer moves off every target.
    PointerOutside,
    PointerButton { position: InputPosition, button: PickingButton, state: ButtonState },
    PointerScroll { position: InputPosition, scroll: ScrollMessage },
    PointerCancel { position: InputPosition },
    MouseButton { button: MouseButton, state: ButtonState },
    MouseWheel { scroll: ScrollMessage },
    Keyboard { keycode: LinuxKeycode, logical_key: Option<LogicalKey>, state: ButtonState },
    KeyboardFocusLost,
}

/// Which mouse buttons action maps see as held.
#[derive(Clone, Copy, Debug, PartialEq, Eq, Structural)]
pub struct HeldButtons {
    pub left: bool,
    pub right: bool,
    pub middle: bool,
    pub back: bool,
    pub forward: bool,
}

impl HeldButtons {
    pub open spec fn none() -> HeldButtons {
        HeldButtons { left: false, right: false, middle: false, back: false, forward: false }
    }

    /// Whether `button` is held.
    pub open spec fn holds(self, button: MouseButton) -> bool {
        match button {
            MouseButton::Left => self.left,
            MouseButton::Right => self.right,
            MouseButton::Middle => self.middle,
            MouseButton::Back => self.back,
            MouseButton::Forward => self.forward,
        }
    }

    /// The buttons with `button` held or not.
    pub open spec fn with(self, button: MouseButton, held: bool) -> HeldButtons {
        match button {
            MouseButton::Left => HeldButtons { left: held, ..self },
            MouseButton::Right => HeldButtons { right: held, ..self },
            MouseButton::Middle => HeldButtons { middle: held, ..self },
            MouseButton::Back => HeldButtons { back: held, ..self },
            MouseButton::Forward => HeldButtons { forward: held, ..self },
        }
    }

    /// The releases of the held buttons, in ascending order of their codes.
    pub open spec fn releases(self) -> Seq<ProjectedMessage> {
        release_if(self.left, MouseButton::Left) + release_if(self.right, MouseButton::Right)
            + release_if(self.middle, MouseButton::Middle) + release_if(
            self.back,
            MouseButton::Back,
        ) + release_if(self.forward, MouseButton::Forward)
    }

    fn push_releases(&self, messages: &mut Vec<ProjectedMessage>)
        ensures
            final(messages)@ == old(messages)@ + self.releases(),
    {
        let ghost before = messages@;
        push_release_if(messages, self.left, MouseButton::Left);
        push_release_if(messages, self.right, MouseButton::Right);
        push_release_if(messages, self.middle, MouseButton::Middle);
        push_release_if(messages, self.back, MouseButton::Back);
        push_release_if(messages, self.forward, MouseButton::Forward);
        assert(messages@ =~= before + self.releases());
    }

    fn set(&mut self, button: MouseButton, held: bool)
        ensures
            *final(self) == old(self).with(button, held),
    {
        match button {
            MouseButton::Left => {
                self.left = held;
            },
            MouseButton::Right => {
                self.right = held;
            },
            MouseButton::Middle => {
                self.middle = held;
            },
            MouseButton::Back => {
                self.back = held;
            },
            MouseButton::Forward => {
                self.forward = held;
            },
        }
    }
}

/// The release of `button`, if it is held.
pub open spec fn release_if(held: bool, button: MouseButton) -> Seq<ProjectedMessage> {
    if held {
        seq![ProjectedMessage::MouseButton { button, state: ButtonState::Released }]
    } else {
        Seq::empty()
    }
}

fn push_release_if(messages: &mut Vec<ProjectedMessage>, held: bool, button: MouseButton)
    ensures
        final(messages)@ == old(messages)@ + release_if(held, button),
{
    if held {
        messages.push(ProjectedMessage::MouseButton { button, state: ButtonState::Released });
    }
    assert(messages@ =~= old(messages)@ + release_if(held, button));
}

/// Projected pointer and button state.
#[derive(Clone, Copy, Debug, PartialEq, Eq, Structural)]
pub struct Projection {
    pub pointer: PointerPositionState,
    pub held: HeldButtons,
}

impl Default for Projection {
    fn default() -> (projection: Projection)
        ensures
            projection.pointer.host_position is None,
            projection.pointer.last_known_position == InputPosition::origin(),
            projection.held == HeldButtons::none(),
    {
        Projection {
            pointer: PointerPositionState::default(),
            held: HeldButtons {
                left: false,
                right: false,
                middle: false,
                back: false,
                forward: false,
            },
        }
    }
}

impl Projection {
    /// The state after one event.
    pub open spec fn projected(self, event: RawSeatEventKind) -> Projection {
        match event {
            RawSeatEventKind::PointerMotion { position } => Projection {
                pointer: PointerPositionState::at(position),
                ..self
            },
            RawSeatEventKind::PointerLeft { position } => Projection {
                pointer: PointerPositionState::at(position).off_host(),
                ..self
            },
            RawSeatEventKind::PointerButton { position, button, state } => Projection {
                pointer: self.pointer.at_if_known(position),
                held: match mouse_button_of(button.0) {
                    Some(button) => self.held.with(button, state is Pressed),
                    None => self.held,
                },
            },
            RawSeatEventKind::PointerAxis { position, .. } => Projection {
                pointer: self.pointer.at_if_known(position),
                ..self
            },
            RawSeatEventKind::HostFocusLost => Projection {
                pointer: self.pointer.off_host(),
                held: HeldButtons::none(),
            },
            RawSeatEventKind::Keyboard { .. } => self,
        }
    }

    /// The messages of one event.
    pub open spec fn messages(self, event: RawSeatEventKind) -> Seq<ProjectedMessage> {
        match event {
            RawSeatEventKind::PointerMotion { position } => {
                let moved = ProjectedMessage::PointerMove {
                    from: self.pointer.host_position,
                    to: position,
                };
                match self.pointer.host_position {
                    Some(from) => seq![ProjectedMessage::MouseMotion { from, to: position }, moved],
                    None => seq![moved],
                }
            },
            RawSeatEventKind::PointerLeft { .. } => seq![ProjectedMessage::PointerOutside],
            RawSeatEventKind::PointerButton { position, button, state } => {
                let host = self.pointer.at_if_known(position).host_position;
                let picking = match (picking_button_of(button.0), host) {
                    (Some(button), Some(position)) => seq![
                        ProjectedMessage::PointerButton { position, button, state },
                    ],
                    _ => Seq::empty(),
                };
                match mouse_button_of(button.0) {
                    Some(button) => picking.push(ProjectedMessage::MouseButton { button, state }),
                    None => picking,
                }
            },
            RawSeatEventKind::PointerAxis { position, axis } => {
                let scroll = scroll_message(axis);
                match self.pointer.at_if_known(position).host_position {
                    Some(position) => seq![
                        ProjectedMessage::MouseWheel { scroll },
                        ProjectedMessage::PointerScroll { position, scroll },
                    ],
                    None => Seq::empty(),
                }
            },
            RawSeatEventKind::HostFocusLost => self.held.releases() + seq![
                ProjectedMessage::KeyboardFocusLost,
                ProjectedMessage::PointerCancel { position: self.pointer.last_known_position },
                ProjectedMessage::PointerOutside,
            ],
            RawSeatEventKind::Keyboard { keycode, logical_key, state } => seq![
                ProjectedMessage::Keyboard { keycode, logical_key, state },
            ],
        }
    }

    /// The state after several events, in order.
    pub open spec fn all_projected(self, events: Seq<RawSeatEvent>) -> Projection
        decreases events.len(),
    {
        if events.len() == 0 {
            self
        } else {
            self.all_projected(events.drop_last()).projected(events.last().event)
        }
    }

    /// The messages of several events, in order.
    pub open spec fn all_messages(self, events: Seq<RawSeatEvent>) -> Seq<ProjectedMessage>
        decreases events.len(),
    {
        if events.len() == 0 {
            Seq::empty()
        } else {
            self.all_messages(events.drop_last()) + self.all_projected(
                events.drop_last(),
            ).messages(events.last().event)
        }
    }

    fn project_motion(&mut self, position: InputPosition, messages: &mut Vec<ProjectedMessage>)
        ensures
            *final(self) == old(self).projected(RawSeatEventKind::PointerMotion { position }),
            final(messages)@ == old(messages)@ + old(self).messages(
                RawSeatEventKind::PointerMotion { position },
            ),
    {
        let ghost expected = self.messages(RawSeatEventKind::PointerMotion { position });
        let previous = self.pointer.host_position;
        self.pointer.apply(position);
        match previous {
            Some(from) => {
                messages.push(ProjectedMessage::MouseMotion { from, to: position });
            },
            None => {},
        }
        messages.push(ProjectedMessage::PointerMove { from: previous, to: position });
        assert(messages@ =~= old(messages)@ + expected);
    }

    fn project_button(
        &mut self,
        position: Option<InputPosition>,
        button: LinuxButtonCode,
        state: ButtonState,
        messages: &mut Vec<ProjectedMessage>,
    )
        ensures
            *final(self) == old(self).projected(
                RawSeatEventKind::PointerButton { position, button, state },
            ),
            final(messages)@ == old(messages)@ + old(self).messages(
                RawSeatEventKind::PointerButton { position, button, state },
            ),
    {
        let ghost expected = self.messages(
            RawSeatEventKind::PointerButton { position, button, state },
        );
        match position {
            Some(position) => {
                self.pointer.apply(position);
            },
            None => {},
        }
        match (pointer_button(button), self.pointer.host_position) {
            (Some(button), Some(position)) => {
                messages.push(ProjectedMessage::PointerButton { position, button, state });
            },
            _ => {},
        }
        match mouse_button(button) {
            Some(button) => {
                self.held.set(button, matches!(state, ButtonState::Pressed));
                messages.push(ProjectedMessage::MouseButton { button, state });
            },
            None => {},
        }
        assert(messages@ =~= old(messages)@ + expected);
    }

    fn project_axis(
        &mut self,
        position: Option<InputPosition>,
        axis: RawScrollFrame,
        messages: &mut Vec<ProjectedMessage>,
    )
        ensures
            *final(self) == old(self).projected(RawSeatEventKind::PointerAxis { position, axis }),
            final(messages)@ == old(messages)@ + old(self).messages(
                RawSeatEventKind::PointerAxis { position, axis },
            ),
    {
        let ghost expected = self.messages(RawSeatEventKind::PointerAxis { position, axis });
        match position {
            Some(position) => {
                self.pointer.apply(position);
            },
            None => {},
        }
        match self.pointer.host_position {
            Some(position) => {
                let scroll = bevy_scroll(axis);
                messages.push(ProjectedMessage::MouseWheel { scroll });
                messages.push(ProjectedMessage::PointerScroll { position, scroll });
            },
            None => {},
        }
        assert(messages@ =~= old(messages)@ + expected);
    }

    fn project_focus_loss(&mut self, messages: &mut Vec<ProjectedMessage>)
        ensures
            *final(self) == old(self).projected(RawSeatEventKind::HostFocusLost),
            final(messages)@ == old(messages)@ + old(self).messages(
                RawSeatEventKind::HostFocusLost,
            ),
    {
        let ghost before = messages@;
        let ghost releases = self.held.releases();
        let position = self.pointer.last_known_position;
        self.pointer.clear_host();
        self.held.push_releases(messages);
        self.held =
        HeldButtons { left: false, right: false, middle: false, back: false, forward: false };
        messages.push(ProjectedMessage::KeyboardFocusLost);
        messages.push(ProjectedMessage::PointerCancel { position });
        messages.push(ProjectedMessage::PointerOutside);
        assert(messages@ =~= before + (releases + seq![
            ProjectedMessage::KeyboardFocusLost,
            ProjectedMessage::PointerCancel { position },
            ProjectedMessage::PointerOutside,
        ]));
    }

    fn project_event(&mut self, event: RawSeatEventKind, messages: &mut Vec<ProjectedMessage>)
        ensures
            *final(self) == old(self).projected(event),
            final(messages)@ == old(messages)@ + old(self).messages(event),
    {
        match event {
            RawSeatEventKind::PointerMotion { position } => {
                self.project_motion(position, messages);
            },
            RawSeatEventKind::PointerLeft { position } => {
                self.pointer.apply(position);
                self.pointer.clear_host();
                messages.push(ProjectedMessage::PointerOutside);
                assert(messages@ =~= old(messages)@ + seq![ProjectedMessage::PointerOutside]);
            },
            RawSeatEventKind::PointerButton { position, button, state } => {
                self.project_button(position, button, state, messages);
            },
            RawSeatEventKind::PointerAxis { position, axis } => {
                self.project_axis(position, axis, messages);
            },
            RawSeatEventKind::HostFocusLost => {
                self.project_focus_loss(messages);
            },
            RawSeatEventKind::Keyboard { keycode, logical_key, state } => {
                let message = ProjectedMessage::Keyboard { keycode, logical_key, state };
                messages.push(message);
                assert(messages@ =~= old(messages)@ + seq![message]);
            },
        }
    }

    /// Moves every queued event on to `pending` and returns its messages.
    pub fn project_raw_input(
        &mut self,
        ingress: &mut Vec<RawSeatEvent>,
        pending: &mut Vec<RawSeatEvent>,
    ) -> (messages: Vec<ProjectedMessage>)
        ensures
            *final(self) == old(self).all_projected(old(ingress)@),
            messages@ == old(self).all_messages(old(ingress)@),
            final(pending)@ == old(pending)@ + old(ingress)@,
            final(ingress)@ == Seq::<RawSeatEvent>::empty(),
    {
        let ghost start = *self;
        let ghost waiting = pending@;
        let mut messages: Vec<ProjectedMessage> = Vec::new();
        let mut i: usize = 0;
        while i < ingress.len()
            invariant
                i <= ingress@.len(),
                *self == start.all_projected(ingress@.take(i as int)),
                messages@ == start.all_messages(ingress@.take(i as int)),
                pending@ =~= waiting + ingress@.take(i as int),
            decreases ingress@.len() - i,
        {
            assert(ingress@.take(i + 1).drop_last() =~= ingress@.take(i as int));
            let raw_event = ingress[i];
            pending.push(raw_event);
            self.project_event(raw_event.event, &mut messages);
            i = i + 1;
        }
        assert(ingress@.take(i as int) =~= ingress@);
        ingress.clear();
        messages
    }
}

/// Losing the host's focus releases every button that action maps saw pressed.
pub proof fn focus_loss_releases_held_buttons(projection: Projection, button: MouseButton)
    requires
        projection.held.holds(button),
    ensures
        projection.messages(RawSeatEventKind::HostFocusLost).contains(
            ProjectedMessage::MouseButton { button, state: ButtonState::Released },
        ),
        !projection.projected(RawSeatEventKind::HostFocusLost).held.holds(button),
{
    let held = projection.held;
    let messages = projection.messages(RawSeatEventKind::HostFocusLost);
    let left = release_if(held.left, MouseButton::Left).len() as int;
    let right = left + release_if(held.right, MouseButton::Right).len();
    let middle = right + release_if(held.middle, MouseButton::Middle).len();
    let back = middle + release_if(held.back, MouseButton::Back).len();
    let at = match button {
        MouseButton::Left => 0,
        MouseButton::Right => left,
        MouseButton::Middle => right,
        MouseButton::Back => middle,
        MouseButton::Forward => back,
    };
    assert(messages[at] == ProjectedMessage::MouseButton { button, state: ButtonState::Released });
}

/// Press and release of a mapped button are reported in pairs: a button is
/// held exactly from its press to its release.
pub proof fn buttons_are_held_from_press_to_release(
    projection: Projection,
    position: Option<InputPosition>,
    code: u32,
    button: MouseButton,
)
    requires
        mouse_button_of(code) == Some(button),
    ensures
        projection.projected(
            RawSeatEventKind::PointerButton {
                position,
                button: LinuxButtonCode(code),
                state: ButtonState::Pressed,
            },
        ).held.holds(button),
        !projection.projected(
            RawSeatEventKind::PointerButton {
                position,
                button: LinuxButtonCode(code),
                state: ButtonState::Released,
            },
        ).held.holds(button),
{
}

/// Each mouse button has one code, and pickers know the first three of them by
/// their roles: the left one as primary, the right one as secondary.
pub proof fn codes_name_their_buttons(code: u32)
    ensures
        mouse_button_of(code) == Some(MouseButton::Left) <==> code == 272,
        mouse_button_of(code) == Some(MouseButton::Right) <==> code == 273,
        mouse_button_of(code) == Some(MouseButton::Middle) <==> code == 274,
        mouse_button_of(code) == Some(MouseButton::Back) <==> code == 275,
        mouse_button_of(code) == Some(MouseButton::Forward) <==> code == 276,
        picking_button_of(code) == Some(PickingButton::Primary) <==> mouse_button_of(code) == Some(
            MouseButton::Left,
        ),
        picking_button_of(code) == Some(PickingButton::Secondary) <==> mouse_button_of(code)
            == Some(MouseButton::Right),
        picking_button_of(code) == Some(PickingButton::Middle) <==> mouse_button_of(code) == Some(
            MouseButton::Middle,
        ),
{
}

/// A motion is told once to pickers, and to action maps where the pointer was on
/// the host before; both have it go from where it was to where it is.
pub proof fn motions_go_from_the_last_place(projection: Projection, position: InputPosition)
    ensures
        ({
            let motion = RawSeatEventKind::PointerMotion { position };
            let told = projection.messages(motion);
            &&& told.last() == (ProjectedMessage::PointerMove {
                from: projection.pointer.host_position,
                to: position,
            })
            &&& projection.pointer.host_position is None ==> told.len() == 1
            &&& projection.pointer.host_position matches Some(before) ==> told.len() == 2 && told[0]
                == (ProjectedMessage::MouseMotion { from: before, to: position })
            &&& projection.projected(motion).pointer.host_position == Some(position)
            &&& projection.projected(motion).pointer.last_known_position == position
            &&& projection.projected(motion).held == projection.held
        }),
{
}

/// Two motions in a row join: the second starts where the first ended.
pub proof fn motions_join(projection: Projection, first: InputPosition, second: InputPosition)
    ensures
        projection.projected(RawSeatEventKind::PointerMotion { position: first }).messages(
            RawSeatEventKind::PointerMotion { position: second },
        )[0] == (ProjectedMessage::MouseMotion { from: first, to: second }),
{
}

/// A button that action maps know is told to them in its own state, after
/// pickers were told where they know it and the pointer is on the host. Nobody
/// is told of a button that is not known.
pub proof fn buttons_are_told_in_their_state(
    projection: Projection,
    position: Option<InputPosition>,
    button: LinuxButtonCode,
    change: ButtonState,
)
    ensures
        ({
            let event = RawSeatEventKind::PointerButton { position, button, state: change };
            let told = projection.messages(event);
            let host = match position {
                Some(place) => Some(place),
                None => projection.pointer.host_position,
            };
            let picked = picking_button_of(button.0) is Some && host is Some;
            let known = mouse_button_of(button.0) is Some;
            &&& told.len() == (if picked {
                1int
            } else {
                0
            }) + (if known {
                1int
            } else {
                0
            })
            &&& picked ==> told[0] == (ProjectedMessage::PointerButton {
                position: host->0,
                button: picking_button_of(button.0)->0,
                state: change,
            })
            &&& known ==> told.last() == (ProjectedMessage::MouseButton {
                button: mouse_button_of(button.0)->0,
                state: change,
            })
        }),
{
}

/// A button event holds or releases its own button and no other.
pub proof fn other_buttons_stay_as_they_are(
    projection: Projection,
    position: Option<InputPosition>,
    button: LinuxButtonCode,
    change: ButtonState,
    other: MouseButton,
)
    requires
        mouse_button_of(button.0) != Some(other),
    ensures
        projection.projected(
            RawSeatEventKind::PointerButton { position, button, state: change },
        ).held.holds(other) == projection.held.holds(other),
{
}

/// A scroll is told to action maps and to pickers alike, at its place, while the
/// pointer is on the host, and to nobody elsewhere.
pub proof fn scrolls_are_told_while_on_the_host(
    projection: Projection,
    position: Option<InputPosition>,
    axis: RawScrollFrame,
)
    ensures
        ({
            let event = RawSeatEventKind::PointerAxis { position, axis };
            let told = projection.messages(event);
            let host = match position {
                Some(place) => Some(place),
                None => projection.pointer.host_position,
            };
            &&& host is None ==> told.len() == 0
            &&& host matches Some(place) ==> {
                &&& told.len() == 2
                &&& told[0] matches ProjectedMessage::MouseWheel { scroll: turned }
                &&& told[1] matches ProjectedMessage::PointerScroll { position: at, scroll: rolled }
                &&& at == place && turned == rolled
                &&& turned.phase == axis.phase
            }
            &&& projection.projected(event).held == projection.held
            &&& projection.projected(event).pointer.host_position == host
        }),
{
}

/// A scroll is counted in wheel steps just if its frame has any, each on its own
/// axis with zero where there are none; elsewhere it is counted in pixels, each
/// on its own axis. It has the phase of its frame.
pub proof fn scrolls_keep_their_axes(axis: RawScrollFrame)
    ensures
        scroll_message(axis).phase == axis.phase,
        scroll_message(axis).amount matches ScrollAmount::Lines { horizontal_v120, vertical_v120 }
            ==> (axis.horizontal_v120 == Some(horizontal_v120) || (axis.horizontal_v120 is None
            && horizontal_v120 == 0)) && (axis.vertical_v120 == Some(vertical_v120) || (
        axis.vertical_v120 is None && vertical_v120 == 0)),
        scroll_message(axis).amount matches ScrollAmount::Pixels { horizontal, vertical }
            ==> horizontal == axis.horizontal && vertical == axis.vertical,
        scroll_message(axis).amount is Lines <==> axis.horizontal_v120 is Some || axis.vertical_v120
            is Some,
{
}

/// A key is told as it is, and changes neither the pointer nor the buttons.
pub proof fn keys_are_told_as_they_are(
    projection: Projection,
    keycode: LinuxKeycode,
    logical_key: Option<LogicalKey>,
    change: ButtonState,
)
    ensures
        ({
            let event = RawSeatEventKind::Keyboard { keycode, logical_key, state: change };
            &&& projection.projected(event) == projection
            &&& projection.messages(event).len() == 1
            &&& projection.messages(event)[0] == (ProjectedMessage::Keyboard {
                keycode,
                logical_key,
                state: change,
            })
        }),
{
}

/// A pointer that leaves is told to be outside, once; its last place is kept and
/// its buttons stay held.
pub proof fn leaving_pointers_are_outside(projection: Projection, position: InputPosition)
    ensures
        ({
            let event = RawSeatEventKind::PointerLeft { position };
            &&& projection.messages(event).len() == 1
            &&& projection.messages(event)[0] is PointerOutside
            &&& projection.projected(event).pointer.host_position is None
            &&& projection.projected(event).pointer.last_known_position == position
            &&& projection.projected(event).held == projection.held
        }),
{
}

/// Losing the host's focus is told last of all: after the releases come the
/// keyboard's loss, the cancelling at the last known place, and the pointer's
/// leaving. Only buttons that are held are released, and none stays held.
pub proof fn focus_loss_is_told_in_order(projection: Projection, i: int)
    ensures
        ({
            let told = projection.messages(RawSeatEventKind::HostFocusLost);
            let count = told.len() - 3;
            let after = projection.projected(RawSeatEventKind::HostFocusLost);
            &&& 0 <= count <= 5
            &&& told[count] is KeyboardFocusLost
            &&& told[count + 1] == (ProjectedMessage::PointerCancel {
                position: projection.pointer.last_known_position,
            })
            &&& told[count + 2] is PointerOutside
            &&& 0 <= i < count ==> (told[i] matches ProjectedMessage::MouseButton { button, state }
                && state is Released && projection.held.holds(button))
            &&& after.pointer.host_position is None
            &&& after.pointer.last_known_position == projection.pointer.last_known_position
            &&& forall|button: MouseButton| !(#[trigger] after.held.holds(button))
        }),
{
    let held = projection.held;
    let first = release_if(held.left, MouseButton::Left);
    let second = first + release_if(held.right, MouseButton::Right);
    let third = second + release_if(held.middle, MouseButton::Middle);
    let fourth = third + release_if(held.back, MouseButton::Back);
    let releases = fourth + release_if(held.forward, MouseButton::Forward);
    assert(held.releases() == releases);
    if 0 <= i < releases.len() {
        if i < first.len() {
            assert(releases[i] == first[i]);
        } else if i < second.len() {
            assert(releases[i] == second[i]);
        } else if i < third.len() {
            assert(releases[i] == third[i]);
        } else if i < fourth.len() {
            assert(releases[i] == fourth[i]);
        }
    }
}

/// Two batches of events one after the other are told as one batch.
pub proof fn batches_are_told_in_order(
    projection: Projection,
    first: Seq<RawSeatEvent>,
    second: Seq<RawSeatEvent>,
)
    ensures
        projection.all_projected(first + second) == projection.all_projected(first).all_projected(
            second,
        ),
        projection.all_messages(first + second) == projection.all_messages(first)
            + projection.all_projected(first).all_messages(second),
    decreases second.len(),
{
    if second.len() == 0 {
        assert(first + second =~= first);
        assert(projection.all_messages(first) + projection.all_projected(first).all_messages(second)
            =~= projection.all_messages(first));
    } else {
        batches_are_told_in_order(projection, first, second.drop_last());
        assert((first + second).drop_last() =~= first + second.drop_last());
        assert((first + second).last() == second.last());
        let between = projection.all_projected(first);
        let last = between.all_projected(second.drop_last()).messages(second.last().event);
        assert(projection.all_messages(first) + between.all_messages(second)
            =~= projection.all_messages(first) + between.all_messages(second.drop_last()) + last);
    }
}

/// A single event is told as itself.
pub proof fn single_events_are_told_as_themselves(projection: Projection, event: RawSeatEvent)
    ensures
        projection.all_projected(seq![event]) == projection.projected(event.event),
        projection.all_messages(seq![event]) == projection.messages(event.event),
{
    let batch = seq![event];
    assert(batch.drop_last() =~= Seq::empty());
    assert(projection.all_projected(batch.drop_last()) == projection);
    assert(projection.all_messages(batch.drop_last()) == Seq::<ProjectedMessage>::empty());
    assert(batch.last() == event);
    assert(projection.all_messages(batch) =~= projection.messages(event.event));
}

} // verus!
