//! Delivery of input to clients: keyboard focus, pointer grabs for window
//! interactions, held buttons and scroll frames.

use vstd::prelude::*;

use crate::number::Real64;
#[allow(unused_imports)]
use crate::raw_input::LinuxButtonCode;
use crate::raw_input::{
    ButtonState, InputPosition, LinuxKeycode, RawScrollFrame, RawScrollSource,
};
use crate::routing::{RoutedHit, SeatInputEffect, SeatInputEffectKind};
use crate::surface::{
    SurfaceId, WindowDecoration, WindowInteractionRequestKind, WindowResizeEdge,
};

verus! {

/// Distance between the keycodes of the kernel and those of the protocol.
pub const PROTOCOL_KEYCODE_OFFSET: u32 = 8;

/// What bears on a focus request that waits for a grab to end.
#[derive(Clone, Copy, Debug, PartialEq, Eq, Structural)]
pub enum FocusTransition {
    Request(Option<SurfaceId>),
    PointerDelivered,
    HostFocusLost,
}

/// The request that waits, and the focus to apply now, after a transition.
pub open spec fn focus_step(
    pending: Option<Option<SurfaceId>>,
    grabbed: bool,
    transition: FocusTransition,
) -> (Option<Option<SurfaceId>>, Option<Option<SurfaceId>>) {
    match transition {
        FocusTransition::Request(requested) => if grabbed {
            (Some(requested), None)
        } else {
            (None, Some(requested))
        },
        FocusTransition::PointerDelivered => if grabbed {
            (pending, None)
        } else {
            (None, pending)
        },
        FocusTransition::HostFocusLost => (None, None),
    }
}

/// Advances the waiting focus request; the focus to apply now, if any. While
/// the pointer is grabbed requests wait, the last one winning. Losing the host's
/// focus discards what waits.
pub fn transition_pending_focus(
    pending: &mut Option<Option<SurfaceId>>,
    grabbed: bool,
    transition: FocusTransition,
) -> (apply: Option<Option<SurfaceId>>)
    ensures
        (*final(pending), apply) == focus_step(*old(pending), grabbed, transition),
{
    match transition {
        FocusTransition::Request(requested) => {
            if grabbed {
                *pending = Some(requested);
                None
            } else {
                *pending = None;
                Some(requested)
            }
        },
        FocusTransition::PointerDelivered => {
            if grabbed {
                None
            } else {
                pending.take()
            }
        },
        FocusTransition::HostFocusLost => {
            *pending = None;
            None
        },
    }
}

/// How a requested surface stands.
#[derive(Clone, Copy, Debug, PartialEq, Eq, Structural)]
pub enum FocusCandidate {
    Unknown,
    Dead,
    Alive,
}

/// What applying a focus request changes.
#[derive(Clone, Copy, Debug, PartialEq, Eq, Structural)]
pub struct FocusPlan {
    /// The window to show as inactive.
    pub deactivate: Option<SurfaceId>,
    /// The window to show as active.
    pub activate: Option<SurfaceId>,
    /// The window that gets the keyboard.
    pub keyboard: Option<SurfaceId>,
}

/// Applies a focus request. `candidate` says how the requested surface stands,
/// `previous_known` whether the focused one is still registered. A surface that
/// is unknown or dead cannot be focused: nothing changes.
pub fn apply_toplevel_focus(
    focused: &mut Option<SurfaceId>,
    requested: Option<SurfaceId>,
    candidate: FocusCandidate,
    previous_known: bool,
) -> (plan: Option<FocusPlan>)
    ensures
        requested is Some && !(candidate is Alive) ==> plan is None && *final(focused) == *old(
            focused,
        ),
        requested is None || candidate is Alive ==> {
            &&& *final(focused) == requested
            &&& plan == Some(
                FocusPlan {
                    deactivate: if *old(focused) != requested && previous_known {
                        *old(focused)
                    } else {
                        None
                    },
                    activate: if *old(focused) != requested {
                        requested
                    } else {
                        None
                    },
                    keyboard: requested,
                },
            )
        },
{
    if requested.is_some() && !matches!(candidate, FocusCandidate::Alive) {
        return None;
    }
    let previous = *focused;
    let unchanged = match (previous, requested) {
        (Some(before), Some(next)) => before.0 == next.0,
        (None, None) => true,
        _ => false,
    };
    let plan = if unchanged {
        FocusPlan { deactivate: None, activate: None, keyboard: requested }
    } else {
        FocusPlan {
            deactivate: if previous_known {
                previous
            } else {
                None
            },
            activate: requested,
            keyboard: requested,
        }
    };
    *focused = requested;
    Some(plan)
}

/// An interaction that a client asks for with the pointer.
#[derive(Clone, Copy, Debug, PartialEq, Eq, Structural)]
pub enum PointerInteraction {
    Move,
    Resize(WindowResizeEdge),
}

/// What is known of a request for a pointer interaction.
#[derive(Clone, Copy, Debug, PartialEq, Eq, Structural)]
pub struct InteractionContext {
    /// The request names this seat, and the seat has a pointer.
    pub own_pointer: bool,
    /// The pointer is grabbed under the serial of the request.
    pub grab_matches: bool,
    /// The grab started over a surface of the client that asks.
    pub same_client: bool,
    /// The window, where it is registered, and how it is decorated.
    pub window: Option<SurfaceId>,
    pub decoration: WindowDecoration,
}

/// What to begin for an accepted request.
#[derive(Clone, Copy, Debug, PartialEq, Eq, Structural)]
pub struct InteractionPlan {
    pub surface: SurfaceId,
    pub request: WindowInteractionRequestKind,
    /// Tell the client that it is being resized, after the grab is installed.
    pub stage_resizing: bool,
}

/// Accepts an interaction that a client asks for: only in answer to a press on
/// one of its own surfaces, and only for a window that decorates itself.
pub fn begin_pointer_interaction(context: InteractionContext, interaction: PointerInteraction) -> (plan:
    Option<InteractionPlan>)
    ensures
        (plan is Some) == (context.own_pointer && context.grab_matches && context.same_client
            && context.window is Some && context.decoration == WindowDecoration::ClientSide),
        plan is Some ==> plan->0 == (InteractionPlan {
            surface: context.window->0,
            request: match interaction {
                PointerInteraction::Move => WindowInteractionRequestKind::Move,
                PointerInteraction::Resize(edges) => WindowInteractionRequestKind::Resize { edges },
            },
            stage_resizing: interaction is Resize,
        }),
{
    if !context.own_pointer || !context.grab_matches || !context.same_client {
        return None;
    }
    let surface = match context.window {
        Some(surface) => surface,
        None => {
            return None;
        },
    };
    if !matches!(context.decoration, WindowDecoration::ClientSide) {
        return None;
    }
    Some(
        match interaction {
            PointerInteraction::Move => InteractionPlan {
                surface,
                request: WindowInteractionRequestKind::Move,
                stage_resizing: false,
            },
            PointerInteraction::Resize(edges) => InteractionPlan {
                surface,
                request: WindowInteractionRequestKind::Resize { edges },
                stage_resizing: true,
            },
        },
    )
}

/// Whether a grab ends with a button event: once the button that started it is
/// no longer held.
pub fn grab_ends(pressed: &Vec<u32>, start_button: u32) -> (ends: bool)
    ensures
        ends == !pressed@.contains(start_button),
{
    let mut i: usize = 0;
    while i < pressed.len()
        invariant
            i <= pressed@.len(),
            forall|k: int| 0 <= k < i ==> pressed@[k] != start_button,
        decreases pressed@.len() - i,
    {
        if pressed[i] == start_button {
            return false;
        }
        i = i + 1;
    }
    true
}

/// Whether a change of a window's state is sent to its client: not before the
/// first configuration.
pub fn sends_configure(changed: bool, initial_configure_sent: bool) -> (sends: bool)
    ensures
        sends == (changed && initial_configure_sent),
{
    changed && initial_configure_sent
}

/// Buttons whose press was delivered and whose release was not.
pub struct PressedButtons {
    codes: Vec<u32>,
}

impl View for PressedButtons {
    type V = Set<u32>;

    closed spec fn view(&self) -> Set<u32> {
        self.codes@.to_set()
    }
}

impl PressedButtons {
    #[verifier::type_invariant]
    spec fn inv(self) -> bool {
        self.codes@.no_duplicates()
    }

    pub fn new() -> (pressed: Self)
        ensures
            pressed@ == Set::<u32>::empty(),
    {
        let pressed = PressedButtons { codes: Vec::new() };
        assert(pressed@ =~= Set::<u32>::empty());
        pressed
    }

    /// Takes note of a delivered button event.
    pub fn deliver(&mut self, button: u32, state: ButtonState)
        ensures
            final(self)@ == (match state {
                ButtonState::Pressed => old(self)@.insert(button),
                ButtonState::Released => old(self)@.remove(button),
            }),
    {
        proof {
            use_type_invariant(&*self);
        }
        let mut codes: Vec<u32> = Vec::new();
        std::mem::swap(&mut codes, &mut self.codes);
        let ghost before = codes@;
        let mut kept: Vec<u32> = Vec::new();
        let mut i: usize = 0;
        while i < codes.len()
            invariant
                i <= codes@.len(),
                codes@ == before,
                before.no_duplicates(),
                kept@.no_duplicates(),
                forall|k: int|
                    0 <= k < kept@.len() ==> #[trigger] kept@[k] != button && before.take(
                        i as int,
                    ).contains(kept@[k]),
                forall|code: u32|
                    before.take(i as int).contains(code) && code != button ==> #[trigger] kept@.contains(
                        code,
                    ),
            decreases codes@.len() - i,
        {
            let code: u32 = codes[i];
            let ghost seen = before.take(i as int);
            let ghost next = before.take(i + 1);
            let ghost earlier = kept@;
            proof {
                assert(next =~= seen.push(code));
                assert(!seen.contains(code)) by {
                    if seen.contains(code) {
                        let k = choose|k: int| 0 <= k < seen.len() && seen[k] == code;
                        assert(before[k] == before[i as int]);
                    }
                }
                assert forall|other: u32| #[trigger] next.contains(other) <==> seen.contains(other)
                    || other == code by {
                    if seen.contains(other) {
                        let k = choose|k: int| 0 <= k < seen.len() && seen[k] == other;
                        assert(next[k] == other);
                    }
                    assert(next[i as int] == code);
                }
            }
            if code != button {
                kept.push(code);
                proof {
                    assert forall|a: int, b: int| 0 <= a < b < kept@.len() implies kept@[a]
                        != kept@[b] by {
                        if b == earlier.len() {
                            assert(seen.contains(earlier[a]));
                        }
                    }
                    assert forall|other: u32| next.contains(other) && other != button implies #[trigger] kept@.contains(
                        other,
                    ) by {
                        if other == code {
                            assert(kept@[earlier.len() as int] == code);
                        } else {
                            assert(earlier.contains(other));
                            let k = choose|k: int| 0 <= k < earlier.len() && earlier[k] == other;
                            assert(kept@[k] == other);
                        }
                    }
                }
            }
            i = i + 1;
        }
        assert(before.take(i as int) =~= before);
        let ghost without = kept@;
        if matches!(state, ButtonState::Pressed) {
            kept.push(button);
        }
        proof {
            let after = kept@;
            if state is Pressed {
                assert(after =~= without.push(button));
                assert(after[without.len() as int] == button);
            }
            assert forall|code: u32| #[trigger] after.to_set().contains(code) <==> (match state {
                ButtonState::Pressed => before.to_set().insert(button),
                ButtonState::Released => before.to_set().remove(button),
            }).contains(code) by {
                if without.contains(code) {
                    let k = choose|k: int| 0 <= k < without.len() && without[k] == code;
                    assert(after[k] == code);
                    assert(before.contains(code));
                }
                if before.contains(code) && code != button {
                    assert(without.contains(code));
                }
                if after.contains(code) && code != button {
                    let k = choose|k: int| 0 <= k < after.len() && after[k] == code;
                    assert(without[k] == code);
                    assert(before.contains(without[k]));
                }
                if state is Released && after.contains(code) {
                    let k = choose|k: int| 0 <= k < after.len() && after[k] == code;
                    assert(without[k] != button);
                }
            }
        }
        self.codes = kept;
        assert(self@ =~= (match state {
            ButtonState::Pressed => old(self)@.insert(button),
            ButtonState::Released => old(self)@.remove(button),
        }));
    }

    /// Hands out the held buttons, each once, to be released.
    pub fn take(&mut self) -> (buttons: Vec<u32>)
        ensures
            final(self)@ == Set::<u32>::empty(),
            buttons@.no_duplicates(),
            buttons@.to_set() == old(self)@,
    {
        proof {
            use_type_invariant(&*self);
        }
        let mut codes: Vec<u32> = Vec::new();
        std::mem::swap(&mut codes, &mut self.codes);
        assert(self@ =~= Set::<u32>::empty());
        codes
    }
}

/// The keycode that the protocol has for a key; none beyond its range.
pub fn protocol_keycode(keycode: LinuxKeycode) -> (code: Option<u32>)
    ensures
        code == (if keycode.0 + PROTOCOL_KEYCODE_OFFSET <= u32::MAX {
            Some((keycode.0 + PROTOCOL_KEYCODE_OFFSET) as u32)
        } else {
            None
        }),
{
    keycode.0.checked_add(PROTOCOL_KEYCODE_OFFSET)
}

/// What is sent for a scroll, per axis: only what is there.
#[derive(Clone, Copy, Debug, PartialEq, Eq, Structural)]
pub struct AxisFrame {
    pub source: RawScrollSource,
    pub time: u32,
    pub horizontal: Option<Real64>,
    pub vertical: Option<Real64>,
    pub horizontal_v120: Option<i32>,
    pub vertical_v120: Option<i32>,
    pub horizontal_stop: bool,
    pub vertical_stop: bool,
}

/// A distance, unless it is zero.
pub open spec fn nonzero_distance(distance: Real64) -> Option<Real64> {
    if distance.nan() || distance.rank() != 0 {
        Some(distance)
    } else {
        None
    }
}

/// A number of steps, unless it is zero.
pub open spec fn nonzero_steps(steps: Option<i32>) -> Option<i32> {
    if steps == Some(0i32) {
        None
    } else {
        steps
    }
}

fn distance_of(distance: Real64) -> (kept: Option<Real64>)
    ensures
        kept == nonzero_distance(distance),
{
    if distance.equals(Real64::zero()) {
        None
    } else {
        Some(distance)
    }
}

fn steps_of(steps: Option<i32>) -> (kept: Option<i32>)
    ensures
        kept == nonzero_steps(steps),
{
    match steps {
        Some(count) => if count == 0 {
            None
        } else {
            Some(count)
        },
        None => None,
    }
}

/// What is sent for a scroll; nothing if there is nothing in it.
pub open spec fn scroll_frame(axis: RawScrollFrame, time: u32) -> Option<AxisFrame> {
    let whole = AxisFrame {
        source: axis.source,
        time,
        horizontal: nonzero_distance(axis.horizontal),
        vertical: nonzero_distance(axis.vertical),
        horizontal_v120: nonzero_steps(axis.horizontal_v120),
        vertical_v120: nonzero_steps(axis.vertical_v120),
        horizontal_stop: axis.horizontal_stop,
        vertical_stop: axis.vertical_stop,
    };
    if whole.horizontal is None && whole.vertical is None && whole.horizontal_v120 is None
        && whole.vertical_v120 is None && !whole.horizontal_stop && !whole.vertical_stop {
        None
    } else {
        Some(whole)
    }
}

/// The protocol frame for a scroll; none if there is nothing in it.
pub fn axis_frame(axis: RawScrollFrame, time: u32) -> (frame: Option<AxisFrame>)
    ensures
        frame == scroll_frame(axis, time),
{
    let horizontal = distance_of(axis.horizontal);
    let vertical = distance_of(axis.vertical);
    let horizontal_v120 = steps_of(axis.horizontal_v120);
    let vertical_v120 = steps_of(axis.vertical_v120);
    if horizontal.is_none() && vertical.is_none() && horizontal_v120.is_none()
        && vertical_v120.is_none() && !axis.horizontal_stop && !axis.vertical_stop {
        return None;
    }
    Some(
        AxisFrame {
            source: axis.source,
            time,
            horizontal,
            vertical,
            horizontal_v120,
            vertical_v120,
            horizontal_stop: axis.horizontal_stop,
            vertical_stop: axis.vertical_stop,
        },
    )
}

/// What a client is told, and what follows for the seat.
#[derive(Debug)]
pub enum Delivery {
    /// There is nothing to tell.
    Nothing,
    /// The pointer moves over `target`, or over no surface.
    Motion { position: InputPosition, target: Option<RoutedHit>, time: u32 },
    /// The pointer moves over `target` and a button changes there.
    Button {
        position: InputPosition,
        target: Option<RoutedHit>,
        button: u32,
        state: ButtonState,
        time: u32,
    },
    Axis(AxisFrame),
    Key { code: u32, state: ButtonState, time: u32 },
    /// Popups are dismissed, every held button is released, the pointer leaves
    /// from `position`, and the keyboard releases its keys and has no focus.
    Release { buttons: Vec<u32>, position: InputPosition, time: u32 },
}

/// The devices of a seat.
#[derive(Clone, Copy, Debug, PartialEq, Eq, Structural)]
pub struct SeatDevices {
    pub pointer: bool,
    pub keyboard: bool,
}

/// What a seat remembers between two effects.
pub struct SeatState {
    pub pending_focus: Option<Option<SurfaceId>>,
    pub pointer_position: InputPosition,
    pressed: PressedButtons,
}

/// What a [`SeatState`] holds.
#[verifier::ext_equal]
pub struct SeatModel {
    pub pending_focus: Option<Option<SurfaceId>>,
    pub pointer_position: InputPosition,
    pub pressed: Set<u32>,
}

impl View for SeatState {
    type V = SeatModel;

    closed spec fn view(&self) -> SeatModel {
        SeatModel {
            pending_focus: self.pending_focus,
            pointer_position: self.pointer_position,
            pressed: self.pressed@,
        }
    }
}

impl SeatModel {
    /// The seat after an effect. Effects on a device that the seat does not
    /// have are lost, but for the buttons that losing the focus releases.
    pub open spec fn applied(self, effect: SeatInputEffectKind, devices: SeatDevices) -> SeatModel {
        match effect {
            SeatInputEffectKind::PointerMotion { position, .. } => if devices.pointer {
                SeatModel { pointer_position: position, ..self }
            } else {
                self
            },
            SeatInputEffectKind::PointerButton { position, button, state, .. } =>
            if devices.pointer {
                SeatModel {
                    pointer_position: position,
                    pressed: match state {
                        ButtonState::Pressed => self.pressed.insert(button.0),
                        ButtonState::Released => self.pressed.remove(button.0),
                    },
                    ..self
                }
            } else {
                self
            },
            SeatInputEffectKind::PointerAxis { .. } => self,
            SeatInputEffectKind::Keyboard { .. } => self,
            SeatInputEffectKind::HostFocusLost => SeatModel {
                pending_focus: None,
                pressed: Set::empty(),
                ..self
            },
        }
    }

    /// `delivery` is what clients are told of an effect.
    pub open spec fn tells(
        self,
        effect: SeatInputEffect,
        devices: SeatDevices,
        delivery: Delivery,
    ) -> bool {
        let time = effect.time;
        match effect.event {
            SeatInputEffectKind::PointerMotion { position, target } => delivery == (
            if devices.pointer {
                Delivery::Motion { position, target, time }
            } else {
                Delivery::Nothing
            }),
            SeatInputEffectKind::PointerButton { position, target, button, state } => delivery == (
            if devices.pointer {
                Delivery::Button { position, target, button: button.0, state, time }
            } else {
                Delivery::Nothing
            }),
            SeatInputEffectKind::PointerAxis { axis } => delivery == (match scroll_frame(
                axis,
                time,
            ) {
                Some(frame) => if devices.pointer {
                    Delivery::Axis(frame)
                } else {
                    Delivery::Nothing
                },
                None => Delivery::Nothing,
            }),
            SeatInputEffectKind::Keyboard { keycode, state } => delivery == (
            if devices.keyboard && keycode.0 + PROTOCOL_KEYCODE_OFFSET <= u32::MAX {
                Delivery::Key {
                    code: (keycode.0 + PROTOCOL_KEYCODE_OFFSET) as u32,
                    state,
                    time,
                }
            } else {
                Delivery::Nothing
            }),
            SeatInputEffectKind::HostFocusLost => delivery matches Delivery::Release {
                buttons,
                position,
                time: at,
            } && at == time && position == self.pointer_position && buttons@.no_duplicates()
                && buttons@.to_set() == (if devices.pointer {
                self.pressed
            } else {
                Set::empty()
            }),
        }
    }
}

impl SeatState {
    pub fn new() -> (seat: Self)
        ensures
            seat@.pending_focus is None,
            seat@.pointer_position == InputPosition::origin(),
            seat@.pressed == Set::<u32>::empty(),
    {
        SeatState {
            pending_focus: None,
            pointer_position: InputPosition::default(),
            pressed: PressedButtons::new(),
        }
    }

    /// Takes in an effect of the seat's input; what to tell clients of it.
    pub fn apply_input_effect(&mut self, effect: SeatInputEffect, devices: SeatDevices) -> (delivery:
        Delivery)
        ensures
            final(self)@ == old(self)@.applied(effect.event, devices),
            old(self)@.tells(effect, devices, delivery),
    {
        let time: u32 = effect.time;
        let ghost before = self@;
        match effect.event {
            SeatInputEffectKind::PointerMotion { position, target } => {
                if !devices.pointer {
                    return Delivery::Nothing;
                }
                self.pointer_position = position;
                Delivery::Motion { position, target, time }
            },
            SeatInputEffectKind::PointerButton { position, target, button, state } => {
                if !devices.pointer {
                    return Delivery::Nothing;
                }
                self.pointer_position = position;
                self.pressed.deliver(button.0, state);
                Delivery::Button { position, target, button: button.0, state, time }
            },
            SeatInputEffectKind::PointerAxis { axis } => {
                if !devices.pointer {
                    return Delivery::Nothing;
                }
                match axis_frame(axis, time) {
                    Some(frame) => Delivery::Axis(frame),
                    None => Delivery::Nothing,
                }
            },
            SeatInputEffectKind::Keyboard { keycode, state } => {
                match protocol_keycode(keycode) {
                    Some(code) => {
                        if devices.keyboard {
                            Delivery::Key { code, state, time }
                        } else {
                            Delivery::Nothing
                        }
                    },
                    None => Delivery::Nothing,
                }
            },
            SeatInputEffectKind::HostFocusLost => {
                let held: Vec<u32> = self.pressed.take();
                let buttons: Vec<u32> = if devices.pointer {
                    held
                } else {
                    Vec::new()
                };
                transition_pending_focus(
                    &mut self.pending_focus,
                    false,
                    FocusTransition::HostFocusLost,
                );
                proof {
                    if !devices.pointer {
                        assert(buttons@.to_set() =~= Set::<u32>::empty());
                    }
                    assert(self@ =~= before.applied(effect.event, devices));
                }
                Delivery::Release { buttons, position: self.pointer_position, time }
            },
        }
    }

    /// Asks for the focus; the focus to apply now, unless a grab holds it back.
    pub fn request_focus(&mut self, requested: Option<SurfaceId>, grabbed: bool) -> (apply: Option<
        Option<SurfaceId>,
    >)
        ensures
            (final(self)@.pending_focus, apply) == focus_step(
                old(self)@.pending_focus,
                grabbed,
                FocusTransition::Request(requested),
            ),
            final(self)@ == (SeatModel {
                pending_focus: final(self)@.pending_focus,
                ..old(self)@
            }),
    {
        transition_pending_focus(
            &mut self.pending_focus,
            grabbed,
            FocusTransition::Request(requested),
        )
    }

    /// A pointer event was delivered: a focus request that waited for the grab
    /// to end is applied now.
    pub fn retry_pending_focus(&mut self, grabbed: bool) -> (apply: Option<Option<SurfaceId>>)
        ensures
            (final(self)@.pending_focus, apply) == focus_step(
                old(self)@.pending_focus,
                grabbed,
                FocusTransition::PointerDelivered,
            ),
            final(self)@ == (SeatModel {
                pending_focus: final(self)@.pending_focus,
                ..old(self)@
            }),
    {
        transition_pending_focus(
            &mut self.pending_focus,
            grabbed,
            FocusTransition::PointerDelivered,
        )
    }
}

/// Which focus goes with a surface that shows nothing any more.
#[derive(Clone, Copy, Debug, PartialEq, Eq, Structural)]
pub struct FocusClearing {
    pub pointer: bool,
    pub keyboard: bool,
}

/// Which focus `surface` holds and loses. Surfaces are named by the integers
/// that their protocol objects go by.
pub fn clear_input_focus_for_surface(
    surface: u64,
    pointer_focus: Option<u64>,
    keyboard_focus: Option<u64>,
) -> (clearing: FocusClearing)
    ensures
        clearing.pointer == (pointer_focus == Some(surface)),
        clearing.keyboard == (keyboard_focus == Some(surface)),
{
    let pointer = match pointer_focus {
        Some(focused) => focused == surface,
        None => false,
    };
    let keyboard = match keyboard_focus {
        Some(focused) => focused == surface,
        None => false,
    };
    FocusClearing { pointer, keyboard }
}

/// The tree that a pointer target belongs to.
#[derive(Clone, Copy, Debug, PartialEq, Eq, Structural)]
pub enum FocusTree {
    Toplevel,
    Popup,
}

/// The tree to look a pointer target up in: that of its window, or else that of
/// its popup, if it is alive. `None` stands for one that is not registered.
pub fn pointer_focus_tree(toplevel_alive: Option<bool>, popup_alive: Option<bool>) -> (tree: Option<
    FocusTree,
>)
    ensures
        tree == (if toplevel_alive == Some(true) {
            Some(FocusTree::Toplevel)
        } else if popup_alive == Some(true) {
            Some(FocusTree::Popup)
        } else {
            None
        }),
{
    match (toplevel_alive, popup_alive) {
        (Some(true), _) => Some(FocusTree::Toplevel),
        (_, Some(true)) => Some(FocusTree::Popup),
        _ => None,
    }
}

/// Losing the host's focus releases just the buttons that clients saw pressed,
/// each once, and a second loss releases nothing more.
pub proof fn focus_loss_releases_each_button_once(
    seat: SeatModel,
    devices: SeatDevices,
    first: SeatInputEffect,
    second: SeatInputEffect,
    delivered: Delivery,
    again: Delivery,
)
    requires
        first.event is HostFocusLost,
        second.event is HostFocusLost,
        devices.pointer,
        seat.tells(first, devices, delivered),
        seat.applied(first.event, devices).tells(second, devices, again),
    ensures
        delivered matches Delivery::Release { buttons, .. } && buttons@.to_set() == seat.pressed
            && buttons@.no_duplicates(),
        again matches Delivery::Release { buttons, .. } && buttons@.len() == 0,
{
    if let Delivery::Release { buttons, .. } = again {
        if buttons@.len() > 0 {
            assert(buttons@.to_set().contains(buttons@[0]));
        }
    }
}

/// Of the requests made during a grab the last one is applied once the grab has
/// ended, and only once; losing the host's focus discards it.
pub proof fn the_last_waiting_request_wins(
    pending: Option<Option<SurfaceId>>,
    first: Option<SurfaceId>,
    last: Option<SurfaceId>,
)
    ensures
        ({
            let once = focus_step(pending, true, FocusTransition::Request(first));
            let twice = focus_step(once.0, true, FocusTransition::Request(last));
            let held = focus_step(twice.0, true, FocusTransition::PointerDelivered);
            let freed = focus_step(held.0, false, FocusTransition::PointerDelivered);
            let again = focus_step(freed.0, false, FocusTransition::PointerDelivered);
            let lost = focus_step(twice.0, false, FocusTransition::HostFocusLost);
            &&& once.1 is None && twice.1 is None && held.1 is None
            &&& freed.1 == Some(last)
            &&& again.1 is None
            &&& focus_step(lost.0, false, FocusTransition::PointerDelivered).1 is None
        }),
{
}

/// A key is delivered in the state that it is in, a press as a press and a
/// release as a release, at its time and under the code 8 above the kernel's. A
/// seat without a keyboard delivers no key, and a code beyond the protocol's
/// range is no key.
pub proof fn keys_are_delivered_as_they_are(
    seat: SeatModel,
    keycode: LinuxKeycode,
    state: ButtonState,
    time: u32,
    devices: SeatDevices,
    delivery: Delivery,
)
    requires
        seat.tells(
            SeatInputEffect { event: SeatInputEffectKind::Keyboard { keycode, state }, time },
            devices,
            delivery,
        ),
    ensures
        devices.keyboard && keycode.0 + 8 <= u32::MAX ==> (delivery matches Delivery::Key {
            code,
            state: told,
            time: at,
        } && code - 8 == keycode.0 && told == state && at == time),
        !devices.keyboard || keycode.0 + 8 > u32::MAX ==> delivery is Nothing,
{
}

/// A pointer that moves is delivered where it is, over the target that it was
/// routed to and at its time; from then on the seat has it there.
pub proof fn motions_are_delivered_where_they_are(
    seat: SeatModel,
    position: InputPosition,
    target: Option<RoutedHit>,
    time: u32,
    devices: SeatDevices,
    delivery: Delivery,
)
    requires
        seat.tells(
            SeatInputEffect {
                event: SeatInputEffectKind::PointerMotion { position, target },
                time,
            },
            devices,
            delivery,
        ),
    ensures
        devices.pointer ==> (delivery matches Delivery::Motion {
            position: place,
            target: over,
            time: at,
        } && place == position && over == target && at == time),
        !devices.pointer ==> delivery is Nothing,
        ({
            let after = seat.applied(
                SeatInputEffectKind::PointerMotion { position, target },
                devices,
            );
            &&& devices.pointer ==> after.pointer_position == position
            &&& !devices.pointer ==> after.pointer_position == seat.pointer_position
            &&& after.pressed == seat.pressed && after.pending_focus == seat.pending_focus
        }),
{
}

/// A button is delivered in the state that it is in, to the target that it was
/// routed to, at its place and time. The seat holds it from its press to its
/// release; of other buttons nothing changes.
pub proof fn buttons_are_delivered_as_they_are(
    seat: SeatModel,
    position: InputPosition,
    target: Option<RoutedHit>,
    button: LinuxButtonCode,
    state: ButtonState,
    time: u32,
    devices: SeatDevices,
    delivery: Delivery,
)
    requires
        seat.tells(
            SeatInputEffect {
                event: SeatInputEffectKind::PointerButton { position, target, button, state },
                time,
            },
            devices,
            delivery,
        ),
    ensures
        devices.pointer ==> (delivery matches Delivery::Button {
            position: place,
            target: over,
            button: code,
            state: told,
            time: at,
        } && place == position && over == target && code == button.0 && told == state && at == time),
        !devices.pointer ==> delivery is Nothing,
        ({
            let effect = SeatInputEffectKind::PointerButton { position, target, button, state };
            let after = seat.applied(effect, devices);
            &&& devices.pointer ==> after.pointer_position == position && (
            after.pressed.contains(button.0) <==> state is Pressed)
            &&& forall|other: u32|
                other != button.0 ==> (#[trigger] after.pressed.contains(other)
                    <==> seat.pressed.contains(other))
            &&& after.pending_focus == seat.pending_focus
            &&& !devices.pointer ==> after == seat
        }),
{
}

/// A scroll is delivered at its time and from its source, each distance, each
/// number of steps and each stop on its own axis. Distances and steps of zero
/// are left out, and a scroll with nothing in it is not delivered.
pub proof fn scrolls_are_delivered_by_axis(
    seat: SeatModel,
    axis: RawScrollFrame,
    time: u32,
    devices: SeatDevices,
    delivery: Delivery,
)
    requires
        seat.tells(
            SeatInputEffect { event: SeatInputEffectKind::PointerAxis { axis }, time },
            devices,
            delivery,
        ),
    ensures
        delivery matches Delivery::Axis(frame) ==> {
            &&& devices.pointer
            &&& frame.source == axis.source && frame.time == time
            &&& frame.horizontal matches Some(distance) ==> distance == axis.horizontal
            &&& frame.horizontal is None <==> axis.horizontal.bits % 0x8000_0000_0000_0000 == 0
            &&& frame.vertical matches Some(distance) ==> distance == axis.vertical
            &&& frame.vertical is None <==> axis.vertical.bits % 0x8000_0000_0000_0000 == 0
            &&& frame.horizontal_v120 matches Some(steps) ==> axis.horizontal_v120 == Some(steps)
            &&& frame.horizontal_v120 is None <==> axis.horizontal_v120 is None
                || axis.horizontal_v120 == Some(0i32)
            &&& frame.vertical_v120 matches Some(steps) ==> axis.vertical_v120 == Some(steps)
            &&& frame.vertical_v120 is None <==> axis.vertical_v120 is None || axis.vertical_v120
                == Some(0i32)
            &&& frame.horizontal_stop == axis.horizontal_stop
            &&& frame.vertical_stop == axis.vertical_stop
        },
        delivery is Axis || delivery is Nothing,
        devices.pointer && delivery is Nothing ==> {
            &&& axis.horizontal.bits % 0x8000_0000_0000_0000 == 0
            &&& axis.vertical.bits % 0x8000_0000_0000_0000 == 0
            &&& axis.horizontal_v120 is None || axis.horizontal_v120 == Some(0i32)
            &&& axis.vertical_v120 is None || axis.vertical_v120 == Some(0i32)
            &&& !axis.horizontal_stop && !axis.vertical_stop
        },
        delivery is Axis ==> {
            ||| axis.horizontal.bits % 0x8000_0000_0000_0000 != 0
            ||| axis.vertical.bits % 0x8000_0000_0000_0000 != 0
            ||| axis.horizontal_v120 is Some && axis.horizontal_v120 != Some(0i32)
            ||| axis.vertical_v120 is Some && axis.vertical_v120 != Some(0i32)
            ||| axis.horizontal_stop
            ||| axis.vertical_stop
        },
        seat.applied(SeatInputEffectKind::PointerAxis { axis }, devices) == seat,
{
}

/// Losing the host's focus takes the pointer from where the seat has it, at the
/// time of the loss. It leaves no button held and no focus request waiting, and
/// the place of the pointer as it was.
pub proof fn focus_loss_takes_the_pointer_from_its_place(
    seat: SeatModel,
    time: u32,
    devices: SeatDevices,
    delivery: Delivery,
)
    requires
        seat.tells(
            SeatInputEffect { event: SeatInputEffectKind::HostFocusLost, time },
            devices,
            delivery,
        ),
    ensures
        delivery matches Delivery::Release { buttons, position, time: at } && position
            == seat.pointer_position && at == time && (forall|button: u32| #[trigger]
            buttons@.contains(button) <==> devices.pointer && seat.pressed.contains(button)),
        seat.applied(SeatInputEffectKind::HostFocusLost, devices).pending_focus is None,
        seat.applied(SeatInputEffectKind::HostFocusLost, devices).pressed.is_empty(),
        seat.applied(SeatInputEffectKind::HostFocusLost, devices).pointer_position
            == seat.pointer_position,
{
    if let Delivery::Release { buttons, .. } = delivery {
        assert forall|button: u32| #[trigger] buttons@.contains(button) <==> devices.pointer
            && seat.pressed.contains(button) by {
            assert(buttons@.contains(button) <==> buttons@.to_set().contains(button));
        }
    }
}

/// Keys change nothing that the seat remembers.
pub proof fn keys_leave_the_seat_alone(
    seat: SeatModel,
    keycode: LinuxKeycode,
    state: ButtonState,
    devices: SeatDevices,
)
    ensures
        seat.applied(SeatInputEffectKind::Keyboard { keycode, state }, devices) == seat,
{
}

/// A focus request that no grab holds back is applied at once, and one that
/// waited before it is dropped. During a grab a delivered pointer event leaves
/// the waiting request as it is.
pub proof fn free_requests_are_applied_at_once(
    pending: Option<Option<SurfaceId>>,
    requested: Option<SurfaceId>,
)
    ensures
        focus_step(pending, false, FocusTransition::Request(requested)).1 == Some(requested),
        focus_step(pending, false, FocusTransition::Request(requested)).0 is None,
        focus_step(pending, true, FocusTransition::PointerDelivered).0 == pending,
        focus_step(pending, false, FocusTransition::PointerDelivered).1 == pending,
        focus_step(pending, true, FocusTransition::HostFocusLost).0 is None,
        focus_step(pending, true, FocusTransition::HostFocusLost).1 is None,
        focus_step(pending, false, FocusTransition::HostFocusLost).1 is None,
{
}

/// The focus goes to a window that is alive, or to none, and nowhere else. The
/// window that loses it is shown as inactive while it is still known, the one
/// that gets it as active, and a window that keeps it is left as it is. Whoever
/// is focused then has the keyboard.
pub proof fn the_focus_goes_to_living_windows(
    focused: &mut Option<SurfaceId>,
    requested: Option<SurfaceId>,
    candidate: FocusCandidate,
    previous_known: bool,
    plan: Option<FocusPlan>,
)
    requires
        call_ensures(apply_toplevel_focus, (focused, requested, candidate, previous_known), plan),
    ensures
        plan is None <==> requested is Some && !(candidate is Alive),
        plan is None ==> *final(focused) == *old(focused),
        plan matches Some(plan) ==> {
            &&& *final(focused) == requested
            &&& plan.keyboard == requested
            &&& plan.activate is Some ==> plan.activate == requested && *old(focused) != requested
            &&& plan.deactivate is Some ==> plan.deactivate == *old(focused) && *old(focused)
                != requested
            &&& *old(focused) != requested ==> plan.activate == requested
            &&& *old(focused) != requested && previous_known ==> plan.deactivate == *old(focused)
            &&& !previous_known ==> plan.deactivate is None
        },
{
}

/// A client gets an interaction only in answer to a press on one of its own
/// surfaces and only for a window that it decorates itself. What begins is what it
/// asked for, and only a resize is told to the client.
pub proof fn interactions_answer_a_press(
    context: InteractionContext,
    interaction: PointerInteraction,
    plan: Option<InteractionPlan>,
)
    requires
        call_ensures(begin_pointer_interaction, (context, interaction), plan),
    ensures
        plan is Some ==> context.own_pointer && context.grab_matches && context.same_client
            && context.decoration is ClientSide,
        context.own_pointer && context.grab_matches && context.same_client
            && context.decoration is ClientSide && context.window is Some ==> plan is Some,
        plan matches Some(begun) ==> {
            &&& context.window == Some(begun.surface)
            &&& interaction is Move ==> begun.request is Move && !begun.stage_resizing
            &&& interaction matches PointerInteraction::Resize(pulled) ==> begun.stage_resizing && (
            begun.request matches WindowInteractionRequestKind::Resize { edges } && edges == pulled)
        },
{
}

/// A pointer target is looked up in its window while that is alive, in its popup
/// while only that is, and nowhere else.
pub proof fn targets_are_looked_up_where_they_live(
    toplevel: Option<bool>,
    popup: Option<bool>,
    tree: Option<FocusTree>,
)
    requires
        call_ensures(pointer_focus_tree, (toplevel, popup), tree),
    ensures
        tree == Some(FocusTree::Toplevel) <==> toplevel == Some(true),
        tree == Some(FocusTree::Popup) <==> toplevel != Some(true) && popup == Some(true),
        tree is None <==> toplevel != Some(true) && popup != Some(true),
{
}

/// A surface loses just the focus that it holds, the pointer's and the keyboard's
/// each on its own.
pub proof fn surfaces_lose_the_focus_they_hold(
    surface: u64,
    pointer: Option<u64>,
    keyboard: Option<u64>,
    clearing: FocusClearing,
)
    requires
        call_ensures(clear_input_focus_for_surface, (surface, pointer, keyboard), clearing),
    ensures
        clearing.pointer ==> pointer == Some(surface),
        pointer == Some(surface) ==> clearing.pointer,
        clearing.keyboard ==> keyboard == Some(surface),
        keyboard == Some(surface) ==> clearing.keyboard,
{
}

/// The protocol's code of a key is 8 above the kernel's, and keys that would be
/// beyond its range have none.
pub proof fn protocol_codes_are_offset(keycode: LinuxKeycode, code: Option<u32>)
    requires
        call_ensures(protocol_keycode, (keycode,), code),
    ensures
        code matches Some(code) ==> code - keycode.0 == 8,
        code is None <==> keycode.0 > u32::MAX - 8,
{
}

/// A grab goes on while the button that started it is held.
pub proof fn grabs_end_with_their_button(pressed: &Vec<u32>, button: u32, ends: bool)
    requires
        call_ensures(grab_ends, (pressed, button), ends),
    ensures
        ends ==> forall|i: int| 0 <= i < pressed@.len() ==> #[trigger] pressed@[i] != button,
        !ends ==> pressed@.contains(button),
{
}

/// A key that is released on a seat is delivered as released, one that is pressed
/// as pressed, and the seat remembers nothing of it.
pub proof fn seats_deliver_keys_as_they_are(
    seat: &mut SeatState,
    keycode: LinuxKeycode,
    state: ButtonState,
    time: u32,
    devices: SeatDevices,
    delivery: Delivery,
)
    requires
        keycode.0 <= u32::MAX - 8,
        devices.keyboard,
        call_ensures(
            SeatState::apply_input_effect,
            (
                seat,
                SeatInputEffect { event: SeatInputEffectKind::Keyboard { keycode, state }, time },
                devices,
            ),
            delivery,
        ),
    ensures
        delivery matches Delivery::Key { code, state: told, time: at } && code == keycode.0 + 8
            && told == state && at == time,
        final(seat)@ == old(seat)@,
{
}

/// A button is down from its press to its release, whatever other buttons do.
pub proof fn buttons_stay_down_until_released(
    pressed: &mut PressedButtons,
    button: u32,
    state: ButtonState,
    other: u32,
)
    requires
        call_ensures(PressedButtons::deliver, (pressed, button, state), ()),
    ensures
        final(pressed)@.contains(button) <==> state is Pressed,
        other != button ==> (final(pressed)@.contains(other) <==> old(pressed)@.contains(other)),
{
}

} // verus!
