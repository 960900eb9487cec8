//! Routing of seat input to client surfaces.
//!
//! The first button pressed over a surface grabs the pointer for it until the
//! last button is released. Grabbed positions are reported relative to the
//! place where the grab was anchored.

use std::collections::HashSet;
use vstd::prelude::*;

use crate::nodes::SurfaceInputNode;
use crate::number::Vec2;
use crate::raw_input::{
    ButtonState, InputPosition, LinuxButtonCode, LinuxKeycode, PointerPositionState,
    RawScrollFrame, RawSeatEvent, RawSeatEventKind,
};
#[allow(unused_imports)]
use crate::raw_input::LogicalKey;
use crate::surface::{SurfaceId, SurfaceLayerId};

verus! {

broadcast use vstd::std_specs::hash::group_hash_axioms;

/// A surface under the pointer.
#[derive(Clone, Copy, Debug, PartialEq, Eq, Structural)]
pub struct SurfaceHit {
    pub surface: SurfaceId,
    pub layer: SurfaceLayerId,
    pub local_position: InputPosition,
}

/// Position in the coordinates of a surface layer.
#[derive(Clone, Copy, Debug, PartialEq, Eq, Structural)]
pub enum LocalPosition {
    /// The position that picking found.
    Picked(InputPosition),
    /// `position - (anchor - anchor_local)`, coordinate by coordinate.
    Grabbed { position: InputPosition, anchor: InputPosition, anchor_local: InputPosition },
}

/// The surface that gets an event, and where.
#[derive(Clone, Copy, Debug, PartialEq, Eq, Structural)]
pub struct RoutedHit {
    pub surface: SurfaceId,
    pub layer: SurfaceLayerId,
    pub local_position: LocalPosition,
}

impl RoutedHit {
    /// The same place of the same layer. Picked positions are compared here;
    /// where a grab bears on one of them, `same_local` is the comparison of the
    /// numbers that they come to.
    pub open spec fn same(self, other: RoutedHit, same_local: bool) -> bool {
        &&& self.surface == other.surface
        &&& self.layer == other.layer
        &&& match (self.local_position, other.local_position) {
            (LocalPosition::Picked(position), LocalPosition::Picked(other)) => position.same(other),
            _ => same_local,
        }
    }

    pub fn equals(self, other: RoutedHit, same_local: bool) -> (same: bool)
        ensures
            same == self.same(other, same_local),
    {
        self.surface == other.surface && self.layer == other.layer && match (
            self.local_position,
            other.local_position,
        ) {
            (LocalPosition::Picked(position), LocalPosition::Picked(other)) => position.equals(
                other,
            ),
            _ => same_local,
        }
    }
}

/// The event that a client gets.
#[derive(Clone, Copy, Debug, PartialEq, Eq, Structural)]
pub enum SeatInputEffectKind {
    PointerMotion { position: InputPosition, target: Option<RoutedHit> },
    PointerButton {
        position: InputPosition,
        target: Option<RoutedHit>,
        button: LinuxButtonCode,
        state: ButtonState,
    },
    PointerAxis { axis: RawScrollFrame },
    Keyboard { keycode: LinuxKeycode, state: ButtonState },
    HostFocusLost,
}

/// Owned routing result consumed by the protocol host.
#[derive(Clone, Copy, Debug, PartialEq, Eq, Structural)]
pub struct SeatInputEffect {
    pub event: SeatInputEffectKind,
    pub time: u32,
}

impl SeatInputEffect {
    pub fn new(event: SeatInputEffectKind, time: u32) -> (effect: SeatInputEffect)
        ensures
            effect == (SeatInputEffect { event, time }),
    {
        SeatInputEffect { event, time }
    }
}

/// A pointer position and the surface that it was routed to.
#[derive(Clone, Copy, Debug, PartialEq, Eq, Structural)]
pub struct ResolvedPointer {
    pub position: InputPosition,
    pub target: Option<RoutedHit>,
}

impl ResolvedPointer {
    /// The same position, over no surface or over the same place of one.
    pub open spec fn same(self, other: ResolvedPointer, same_local: bool) -> bool {
        &&& self.position.same(other.position)
        &&& match (self.target, other.target) {
            (Some(target), Some(other)) => target.same(other, same_local),
            (None, None) => true,
            _ => false,
        }
    }

    pub fn equals(self, other: ResolvedPointer, same_local: bool) -> (same: bool)
        ensures
            same == self.same(other, same_local),
    {
        self.position.equals(other.position) && match (self.target, other.target) {
            (Some(target), Some(other)) => target.equals(other, same_local),
            (None, None) => true,
            _ => false,
        }
    }
}

/// A pointer grab that a button press started.
#[derive(Clone, Copy, Debug, PartialEq, Eq, Structural)]
pub struct ImplicitPointerGrab {
    pub surface: SurfaceId,
    pub layer: SurfaceLayerId,
    /// A pointer position and the layer position that it stood for.
    pub anchor: InputPosition,
    pub anchor_local: InputPosition,
}

impl ImplicitPointerGrab {
    /// The grab anchored at `position` over `hit`.
    pub open spec fn anchored(position: InputPosition, hit: SurfaceHit) -> ImplicitPointerGrab {
        ImplicitPointerGrab {
            surface: hit.surface,
            layer: hit.layer,
            anchor: position,
            anchor_local: hit.local_position,
        }
    }

    /// The target of an event at `position` during the grab.
    pub open spec fn target(self, position: InputPosition) -> RoutedHit {
        RoutedHit {
            surface: self.surface,
            layer: self.layer,
            local_position: LocalPosition::Grabbed {
                position,
                anchor: self.anchor,
                anchor_local: self.anchor_local,
            },
        }
    }

    pub fn new(position: InputPosition, hit: SurfaceHit) -> (grab: ImplicitPointerGrab)
        ensures
            grab == ImplicitPointerGrab::anchored(position, hit),
    {
        ImplicitPointerGrab {
            surface: hit.surface,
            layer: hit.layer,
            anchor: position,
            anchor_local: hit.local_position,
        }
    }

    pub fn target_at(self, position: InputPosition) -> (target: RoutedHit)
        ensures
            target == self.target(position),
    {
        RoutedHit {
            surface: self.surface,
            layer: self.layer,
            local_position: LocalPosition::Grabbed {
                position,
                anchor: self.anchor,
                anchor_local: self.anchor_local,
            },
        }
    }
}

/// Pointer state between events.
pub struct PointerRoutingState {
    pub pointer: PointerPositionState,
    pub last_sent: Option<ResolvedPointer>,
    pressed: HashSet<u32>,
    pub implicit_grab: Option<ImplicitPointerGrab>,
}

/// What a [`PointerRoutingState`] holds.
#[verifier::ext_equal]
pub struct RoutingModel {
    pub pointer: PointerPositionState,
    pub last_sent: Option<ResolvedPointer>,
    pub pressed: Set<u32>,
    pub grab: Option<ImplicitPointerGrab>,
}

impl View for PointerRoutingState {
    type V = RoutingModel;

    closed spec fn view(&self) -> RoutingModel {
        RoutingModel {
            pointer: self.pointer,
            last_sent: self.last_sent,
            pressed: self.pressed@,
            grab: self.implicit_grab,
        }
    }
}

/// The picked surface as a target.
pub open spec fn picked(hit: SurfaceHit) -> RoutedHit {
    RoutedHit {
        surface: hit.surface,
        layer: hit.layer,
        local_position: LocalPosition::Picked(hit.local_position),
    }
}

impl RoutingModel {
    /// The target of an event at `position`: the grab's surface, or the picked
    /// one while no button is pressed.
    pub open spec fn target(
        self,
        geometric: Option<SurfaceHit>,
        position: InputPosition,
    ) -> Option<RoutedHit> {
        match self.grab {
            Some(grab) => Some(grab.target(position)),
            None => match geometric {
                Some(hit) => if self.pressed.is_empty() {
                    Some(picked(hit))
                } else {
                    None
                },
                None => None,
            },
        }
    }

    /// The host pointer and its target.
    pub open spec fn resolved(self, geometric: Option<SurfaceHit>) -> Option<ResolvedPointer> {
        match self.pointer.host_position {
            Some(position) => Some(
                ResolvedPointer { position, target: self.target(geometric, position) },
            ),
            None => None,
        }
    }

    /// The state with no button, no grab and nothing sent.
    pub open spec fn cleared(self) -> RoutingModel {
        RoutingModel { last_sent: None, pressed: Set::empty(), grab: None, ..self }
    }

    /// The state after a button was pressed at `position`.
    pub open spec fn pressed(
        self,
        geometric: Option<SurfaceHit>,
        position: InputPosition,
        button: u32,
    ) -> RoutingModel {
        RoutingModel {
            pressed: self.pressed.insert(button),
            grab: if self.pressed.is_empty() {
                match geometric {
                    Some(hit) => Some(ImplicitPointerGrab::anchored(position, hit)),
                    None => None,
                }
            } else {
                self.grab
            },
            ..self
        }
    }

    /// The state after a button was released.
    pub open spec fn released(self, button: u32) -> RoutingModel {
        let pressed = self.pressed.remove(button);
        RoutingModel {
            pressed,
            grab: if pressed.is_empty() {
                None
            } else {
                self.grab
            },
            ..self
        }
    }

    /// The state after a motion to `position`, and the effect.
    pub open spec fn moved(
        self,
        geometric: Option<SurfaceHit>,
        position: InputPosition,
    ) -> RoutingModel {
        let at = RoutingModel { pointer: PointerPositionState::at(position), ..self };
        RoutingModel { last_sent: at.resolved(geometric), ..at }
    }

    /// The state after one event.
    pub open spec fn replayed(
        self,
        geometric: Option<SurfaceHit>,
        event: RawSeatEventKind,
    ) -> RoutingModel {
        match event {
            RawSeatEventKind::PointerMotion { position } => self.moved(geometric, position),
            RawSeatEventKind::PointerLeft { position } => if self.grab is Some {
                self.moved(geometric, position)
            } else {
                RoutingModel {
                    pointer: PointerPositionState::at(position).off_host(),
                    last_sent: None,
                    ..self
                }
            },
            RawSeatEventKind::PointerButton { position, button, state } => {
                let at = RoutingModel { pointer: self.pointer.at_if_known(position), ..self };
                let place = at.pointer.last_known_position;
                let during = match state {
                    ButtonState::Pressed => at.pressed(geometric, place, button.0),
                    ButtonState::Released => at,
                };
                let sent = RoutingModel {
                    last_sent: match during.pointer.host_position {
                        Some(host) => Some(
                            ResolvedPointer {
                                position: host,
                                target: during.target(geometric, place),
                            },
                        ),
                        None => None,
                    },
                    ..during
                };
                match state {
                    ButtonState::Pressed => sent,
                    ButtonState::Released => sent.released(button.0),
                }
            },
            RawSeatEventKind::PointerAxis { position, .. } => RoutingModel {
                pointer: self.pointer.at_if_known(position),
                ..self
            },
            RawSeatEventKind::Keyboard { .. } => self,
            RawSeatEventKind::HostFocusLost => (RoutingModel {
                pointer: self.pointer.off_host(),
                ..self
            }).cleared(),
        }
    }

    /// The effect of one event.
    pub open spec fn effect(
        self,
        geometric: Option<SurfaceHit>,
        event: RawSeatEventKind,
    ) -> SeatInputEffectKind {
        match event {
            RawSeatEventKind::PointerMotion { position } => SeatInputEffectKind::PointerMotion {
                position,
                target: self.target(geometric, position),
            },
            RawSeatEventKind::PointerLeft { position } => SeatInputEffectKind::PointerMotion {
                position,
                target: match self.grab {
                    Some(grab) => Some(grab.target(position)),
                    None => None,
                },
            },
            RawSeatEventKind::PointerButton { position, button, state } => {
                let at = RoutingModel { pointer: self.pointer.at_if_known(position), ..self };
                let place = at.pointer.last_known_position;
                let during = match state {
                    ButtonState::Pressed => at.pressed(geometric, place, button.0),
                    ButtonState::Released => at,
                };
                SeatInputEffectKind::PointerButton {
                    position: place,
                    target: during.target(geometric, place),
                    button,
                    state,
                }
            },
            RawSeatEventKind::PointerAxis { axis, .. } => SeatInputEffectKind::PointerAxis { axis },
            RawSeatEventKind::Keyboard { keycode, state, .. } => SeatInputEffectKind::Keyboard {
                keycode,
                state,
            },
            RawSeatEventKind::HostFocusLost => SeatInputEffectKind::HostFocusLost,
        }
    }

    /// The state after several events, in order.
    pub open spec fn all_replayed(
        self,
        geometric: Option<SurfaceHit>,
        events: Seq<RawSeatEvent>,
    ) -> RoutingModel
        decreases events.len(),
    {
        if events.len() == 0 {
            self
        } else {
            self.all_replayed(geometric, events.drop_last()).replayed(
                geometric,
                events.last().event,
            )
        }
    }

    /// The effects of several events: one each, in order, at the same time.
    pub open spec fn effects(
        self,
        geometric: Option<SurfaceHit>,
        events: Seq<RawSeatEvent>,
    ) -> Seq<SeatInputEffect> {
        Seq::new(
            events.len(),
            |i: int|
                SeatInputEffect {
                    event: self.all_replayed(geometric, events.take(i)).effect(
                        geometric,
                        events[i].event,
                    ),
                    time: events[i].time,
                },
        )
    }

    /// The state with the grab anchored anew where the picked layer is the grabbed one.
    pub open spec fn reanchored(self, geometric: Option<SurfaceHit>) -> RoutingModel {
        match (self.pointer.host_position, self.grab, geometric) {
            (Some(position), Some(grab), Some(hit)) => if grab.surface == hit.surface && grab.layer
                == hit.layer {
                RoutingModel { grab: Some(ImplicitPointerGrab::anchored(position, hit)), ..self }
            } else {
                self
            },
            _ => self,
        }
    }

    /// The state without a grab on a layer that is no longer shown.
    pub open spec fn without_hidden_grab(self, shown: Seq<SurfaceInputNode>) -> RoutingModel {
        match self.grab {
            Some(grab) => if exists|i: int|
                0 <= i < shown.len() && (#[trigger] shown[i]).surface == grab.surface
                    && shown[i].layer == grab.layer {
                self
            } else {
                RoutingModel { grab: None, ..self }
            },
            None => self,
        }
    }
}

impl Default for PointerRoutingState {
    fn default() -> (routing: PointerRoutingState)
        ensures
            routing@.pointer.host_position is None,
            routing@.pointer.last_known_position == InputPosition::origin(),
            routing@.last_sent is None,
            routing@.pressed == Set::<u32>::empty(),
            routing@.grab is None,
    {
        PointerRoutingState {
            pointer: PointerPositionState::default(),
            last_sent: None,
            pressed: HashSet::new(),
            implicit_grab: None,
        }
    }
}

impl PointerRoutingState {
    /// A state with no button pressed.
    pub fn new(
        pointer: PointerPositionState,
        last_sent: Option<ResolvedPointer>,
        implicit_grab: Option<ImplicitPointerGrab>,
    ) -> (routing: PointerRoutingState)
        ensures
            routing@ == (RoutingModel {
                pointer,
                last_sent,
                pressed: Set::empty(),
                grab: implicit_grab,
            }),
    {
        PointerRoutingState { pointer, last_sent, pressed: HashSet::new(), implicit_grab }
    }

    /// Notes a pressed button.
    pub fn press(&mut self, button: LinuxButtonCode)
        ensures
            final(self)@ == (RoutingModel {
                pressed: old(self)@.pressed.insert(button.0),
                ..old(self)@
            }),
    {
        self.pressed.insert(button.0);
    }

    /// Whether any button is pressed.
    pub fn has_pressed_buttons(&self) -> (pressed: bool)
        ensures
            pressed == !self@.pressed.is_empty(),
    {
        !self.pressed.is_empty()
    }

    /// The target of an event at `position`.
    pub fn routed_target(
        &self,
        geometric: Option<SurfaceHit>,
        position: InputPosition,
    ) -> (target: Option<RoutedHit>)
        ensures
            target == self@.target(geometric, position),
    {
        match self.implicit_grab {
            Some(grab) => Some(grab.target_at(position)),
            None => match geometric {
                Some(hit) => if self.pressed.is_empty() {
                    Some(
                        RoutedHit {
                            surface: hit.surface,
                            layer: hit.layer,
                            local_position: LocalPosition::Picked(hit.local_position),
                        },
                    )
                } else {
                    None
                },
                None => None,
            },
        }
    }

    /// The host pointer and its target.
    pub fn resolved_pointer(&self, geometric: Option<SurfaceHit>) -> (resolved: Option<
        ResolvedPointer,
    >)
        ensures
            resolved == self@.resolved(geometric),
    {
        match self.pointer.host_position {
            Some(position) => Some(
                ResolvedPointer { position, target: self.routed_target(geometric, position) },
            ),
            None => None,
        }
    }

    /// Forgets buttons, grab and the last sent pointer.
    pub fn clear_pointer_routing(&mut self)
        ensures
            final(self)@ == old(self)@.cleared(),
    {
        self.pressed.clear();
        self.implicit_grab = None;
        self.last_sent = None;
        assert(self@ =~= old(self)@.cleared());
    }

    /// Replays one event and returns what its target gets.
    pub fn replay_seat_event(
        &mut self,
        geometric: Option<SurfaceHit>,
        raw_event: RawSeatEvent,
    ) -> (effect: Option<SeatInputEffect>)
        ensures
            final(self)@ == old(self)@.replayed(geometric, raw_event.event),
            effect == Some(
                SeatInputEffect {
                    event: old(self)@.effect(geometric, raw_event.event),
                    time: raw_event.time,
                },
            ),
    {
        let ghost before = self@;
        let RawSeatEvent { event, time } = raw_event;
        let kind: SeatInputEffectKind = match event {
            RawSeatEventKind::PointerMotion { position } => {
                self.pointer.apply(position);
                self.last_sent = self.resolved_pointer(geometric);
                SeatInputEffectKind::PointerMotion {
                    position,
                    target: self.routed_target(geometric, position),
                }
            },
            RawSeatEventKind::PointerLeft { position } => {
                self.pointer.apply(position);
                match self.implicit_grab {
                    Some(grab) => {
                        self.last_sent = self.resolved_pointer(geometric);
                        SeatInputEffectKind::PointerMotion {
                            position,
                            target: Some(grab.target_at(position)),
                        }
                    },
                    None => {
                        self.pointer.clear_host();
                        self.last_sent = None;
                        SeatInputEffectKind::PointerMotion { position, target: None }
                    },
                }
            },
            RawSeatEventKind::PointerButton { position, button, state } => {
                match position {
                    Some(position) => {
                        self.pointer.apply(position);
                    },
                    None => {},
                }
                let place: InputPosition = match position {
                    Some(position) => position,
                    None => self.pointer.last_known_position,
                };
                match state {
                    ButtonState::Pressed => {
                        let first_button: bool = self.pressed.is_empty();
                        self.pressed.insert(button.0);
                        if first_button {
                            self.implicit_grab = match geometric {
                                Some(hit) => Some(ImplicitPointerGrab::new(place, hit)),
                                None => None,
                            };
                        }
                    },
                    ButtonState::Released => {},
                }
                let target = self.routed_target(geometric, place);
                self.last_sent = match self.pointer.host_position {
                    Some(position) => Some(ResolvedPointer { position, target }),
                    None => None,
                };
                match state {
                    ButtonState::Pressed => {},
                    ButtonState::Released => {
                        self.pressed.remove(&button.0);
                        if self.pressed.is_empty() {
                            self.implicit_grab = None;
                        }
                    },
                }
                SeatInputEffectKind::PointerButton { position: place, target, button, state }
            },
            RawSeatEventKind::PointerAxis { position, axis } => {
                match position {
                    Some(position) => {
                        self.pointer.apply(position);
                    },
                    None => {},
                }
                SeatInputEffectKind::PointerAxis { axis }
            },
            RawSeatEventKind::Keyboard { keycode, state, .. } => SeatInputEffectKind::Keyboard {
                keycode,
                state,
            },
            RawSeatEventKind::HostFocusLost => {
                self.pointer.clear_host();
                self.clear_pointer_routing();
                SeatInputEffectKind::HostFocusLost
            },
        };
        assert(self@ =~= before.replayed(geometric, event));
        Some(SeatInputEffect { event: kind, time })
    }

    /// Anchors the grab anew where the picked layer is the grabbed one.
    pub fn refresh_grab_origin(&mut self, geometric: Option<SurfaceHit>)
        ensures
            final(self)@ == old(self)@.reanchored(geometric),
    {
        match (self.pointer.host_position, self.implicit_grab, geometric) {
            (Some(position), Some(grab), Some(hit)) => {
                if grab.surface == hit.surface && grab.layer == hit.layer {
                    self.implicit_grab = Some(ImplicitPointerGrab::new(position, hit));
                }
            },
            _ => {},
        }
    }

    /// Drops a grab on a layer that is no longer shown.
    pub fn release_hidden_grab(&mut self, shown: &Vec<SurfaceInputNode>)
        ensures
            final(self)@ == old(self)@.without_hidden_grab(shown@),
    {
        match self.implicit_grab {
            Some(grab) => {
                let mut i: usize = 0;
                while i < shown.len()
                    invariant
                        i <= shown@.len(),
                        *self == *old(self),
                        self.implicit_grab == Some(grab),
                        forall|k: int|
                            0 <= k < i ==> (#[trigger] shown@[k]).surface != grab.surface
                                || shown@[k].layer != grab.layer,
                    decreases shown@.len() - i,
                {
                    if shown[i].surface == grab.surface && shown[i].layer == grab.layer {
                        return;
                    }
                    i = i + 1;
                }
                self.implicit_grab = None;
            },
            None => {},
        }
    }

    /// Replays a batch of events after dropping a hidden grab, then anchors the
    /// grab anew.
    pub fn resolve_input_effects(
        &mut self,
        shown: &Vec<SurfaceInputNode>,
        geometric: Option<SurfaceHit>,
        pending: &Vec<RawSeatEvent>,
    ) -> (effects: Vec<SeatInputEffect>)
        ensures
            final(self)@ == old(self)@.without_hidden_grab(shown@).all_replayed(
                geometric,
                pending@,
            ).reanchored(geometric),
            effects@ == old(self)@.without_hidden_grab(shown@).effects(geometric, pending@),
    {
        self.release_hidden_grab(shown);
        let ghost start = self@;
        let mut effects: Vec<SeatInputEffect> = Vec::new();
        let mut i: usize = 0;
        while i < pending.len()
            invariant
                i <= pending@.len(),
                self@ == start.all_replayed(geometric, pending@.take(i as int)),
                effects@.len() == i,
                forall|k: int|
                    0 <= k < i ==> #[trigger] effects@[k] == start.effects(geometric, pending@)[k],
            decreases pending@.len() - i,
        {
            assert(pending@.take(i + 1).drop_last() =~= pending@.take(i as int));
            if let Some(effect) = self.replay_seat_event(geometric, pending[i]) {
                effects.push(effect);
            }
            i = i + 1;
        }
        assert(pending@.take(i as int) =~= pending@);
        assert(effects@ =~= start.effects(geometric, pending@));
        self.refresh_grab_origin(geometric);
        effects
    }

    /// Sends the resolved pointer where it differs from what was sent last.
    ///
    /// `same_local` is the numeric comparison of their local positions; it
    /// counts only where both are over one layer and a grab bears on them.
    pub fn reconcile(
        &mut self,
        geometric: Option<SurfaceHit>,
        same_local: bool,
        time: u32,
    ) -> (effect: Option<SeatInputEffect>)
        ensures
            effect == reconciled(
                old(self)@.last_sent,
                old(self)@.resolved(geometric),
                same_local,
                time,
            ),
            final(self)@ == (RoutingModel {
                last_sent: if effect is Some {
                    old(self)@.resolved(geometric)
                } else {
                    old(self)@.last_sent
                },
                ..old(self)@
            }),
    {
        let current = self.resolved_pointer(geometric);
        let effect = reconcile_pointer(self.last_sent, current, same_local, time);
        if effect.is_some() {
            self.last_sent = current;
        }
        effect
    }
}

/// The motion that tells clients where the pointer is.
pub fn pointer_motion_effect(pointer: ResolvedPointer, time: u32) -> (effect: SeatInputEffect)
    ensures
        effect == (SeatInputEffect {
            event: SeatInputEffectKind::PointerMotion {
                position: pointer.position,
                target: pointer.target,
            },
            time,
        }),
{
    SeatInputEffect {
        event: SeatInputEffectKind::PointerMotion {
            position: pointer.position,
            target: pointer.target,
        },
        time,
    }
}

/// Nothing about the pointer changed: it is away both times, or at the same
/// place over the same thing.
pub open spec fn same_pointer(
    previous: Option<ResolvedPointer>,
    current: Option<ResolvedPointer>,
    same_local: bool,
) -> bool {
    match (previous, current) {
        (Some(previous), Some(current)) => previous.same(current, same_local),
        (None, None) => true,
        _ => false,
    }
}

/// The motion that brings clients from `previous` to `current`, where they
/// differ: a pointer that is gone leaves from where it was.
pub open spec fn reconciled(
    previous: Option<ResolvedPointer>,
    current: Option<ResolvedPointer>,
    same_local: bool,
    time: u32,
) -> Option<SeatInputEffect> {
    if same_pointer(previous, current, same_local) {
        None
    } else {
        match (current, previous) {
            (Some(current), _) => Some(
                SeatInputEffect {
                    event: SeatInputEffectKind::PointerMotion {
                        position: current.position,
                        target: current.target,
                    },
                    time,
                },
            ),
            (None, Some(previous)) => Some(
                SeatInputEffect {
                    event: SeatInputEffectKind::PointerMotion {
                        position: previous.position,
                        target: None,
                    },
                    time,
                },
            ),
            (None, None) => None,
        }
    }
}

/// The motion that brings clients from `previous` to `current`, if they differ.
/// `same_local` is the numeric comparison of their local positions; it counts
/// only where both are over one layer and a grab bears on them.
pub fn reconcile_pointer(
    previous: Option<ResolvedPointer>,
    current: Option<ResolvedPointer>,
    same_local: bool,
    time: u32,
) -> (effect: Option<SeatInputEffect>)
    ensures
        effect == reconciled(previous, current, same_local, time),
{
    match (previous, current) {
        (Some(previous), Some(current)) => if previous.equals(current, same_local) {
            None
        } else {
            Some(pointer_motion_effect(current, time))
        },
        (None, Some(current)) => Some(pointer_motion_effect(current, time)),
        (Some(previous), None) => Some(
            SeatInputEffect {
                event: SeatInputEffectKind::PointerMotion {
                    position: previous.position,
                    target: None,
                },
                time,
            },
        ),
        (None, None) => None,
    }
}

/// A node that picking found under the pointer, topmost first.
#[derive(Clone, Copy, Debug, PartialEq, Eq, Structural)]
pub struct PickCandidate {
    pub target: Option<SurfaceInputNode>,
    /// Position relative to the node's center, in units of its size.
    pub centered_position: Option<InputPosition>,
    pub size: Option<Vec2>,
}

/// An input rectangle that was hit, before its position is converted.
#[derive(Clone, Copy, Debug, PartialEq, Eq, Structural)]
pub struct PickedNode {
    pub target: SurfaceInputNode,
    pub centered_position: InputPosition,
    pub size: Vec2,
}

/// The hit of a candidate that is a surface with a known position and size.
pub open spec fn candidate_hit(candidate: PickCandidate) -> Option<PickedNode> {
    match (candidate.target, candidate.centered_position, candidate.size) {
        (Some(target), Some(centered_position), Some(size)) => Some(
            PickedNode { target, centered_position, size },
        ),
        _ => None,
    }
}

/// The hit of the topmost candidate; whatever lies below it is covered.
pub fn resolve_pick_candidates(candidates: &Vec<PickCandidate>) -> (hit: Option<PickedNode>)
    ensures
        hit == if candidates@.len() > 0 {
            candidate_hit(candidates@[0])
        } else {
            None
        },
{
    if candidates.len() == 0 {
        return None;
    }
    let candidate = candidates[0];
    match (candidate.target, candidate.centered_position, candidate.size) {
        (Some(target), Some(centered_position), Some(size)) => Some(
            PickedNode { target, centered_position, size },
        ),
        _ => None,
    }
}

/// A grab exists only while a button is pressed; every event keeps this.
pub proof fn grabs_need_a_pressed_button(
    state: RoutingModel,
    geometric: Option<SurfaceHit>,
    event: RawSeatEventKind,
)
    requires
        state.grab is Some ==> !state.pressed.is_empty(),
    ensures
        state.replayed(geometric, event).grab is Some ==> !state.replayed(
            geometric,
            event,
        ).pressed.is_empty(),
{
    if let RawSeatEventKind::PointerButton { position, button, state: pressed } = event {
        if pressed is Pressed {
            assert(state.replayed(geometric, event).pressed.contains(button.0));
        }
    }
}

/// During a grab every pointer event goes to the grabbed layer, whatever lies
/// under the pointer.
pub proof fn grabs_capture_the_pointer(
    state: RoutingModel,
    geometric: Option<SurfaceHit>,
    position: InputPosition,
)
    requires
        state.grab is Some,
    ensures
        state.target(geometric, position) matches Some(hit) && hit.surface == (
        state.grab->0).surface && hit.layer == (state.grab->0).layer,
{
}

/// A press that started over no surface keeps clients from seeing the pointer
/// until the last button is released.
pub proof fn presses_beside_surfaces_are_swallowed(
    state: RoutingModel,
    geometric: Option<SurfaceHit>,
    position: InputPosition,
)
    requires
        state.grab is None,
        !state.pressed.is_empty(),
    ensures
        state.target(geometric, position) is None,
{
}

/// Losing the host's focus leaves no button, no grab and no host pointer.
pub proof fn focus_loss_releases_everything(state: RoutingModel, geometric: Option<SurfaceHit>)
    ensures
        state.replayed(geometric, RawSeatEventKind::HostFocusLost).pressed.is_empty(),
        state.replayed(geometric, RawSeatEventKind::HostFocusLost).grab is None,
        state.replayed(geometric, RawSeatEventKind::HostFocusLost).last_sent is None,
        state.replayed(geometric, RawSeatEventKind::HostFocusLost).pointer.host_position is None,
{
}

/// A batch gives one effect per event, in order and with the event's time.
pub proof fn batches_keep_order_and_time(
    state: RoutingModel,
    geometric: Option<SurfaceHit>,
    events: Seq<RawSeatEvent>,
    i: int,
)
    requires
        0 <= i < events.len(),
    ensures
        state.effects(geometric, events).len() == events.len(),
        state.effects(geometric, events)[i].time == events[i].time,
{
}

/// A grab anchored anew reports the picked position at the pointer.
pub proof fn reanchoring_agrees_with_picking(state: RoutingModel, hit: SurfaceHit)
    requires
        state.grab is Some,
        (state.grab->0).surface == hit.surface,
        (state.grab->0).layer == hit.layer,
        state.pointer.host_position is Some,
    ensures
        state.reanchored(Some(hit)).grab matches Some(grab) && grab.anchor
            == state.pointer.host_position->0 && grab.anchor_local == hit.local_position,
{
}

/// A pointer that rests at a place in numbers, and not in a grab, is sent once;
/// one in a grab too, as long as its local position stays the same number.
pub proof fn resting_pointers_are_sent_once(pointer: ResolvedPointer, same_local: bool, time: u32)
    requires
        !pointer.position.x.nan() && !pointer.position.y.nan(),
        pointer.target matches Some(hit) ==> match hit.local_position {
            LocalPosition::Picked(position) => !position.x.nan() && !position.y.nan(),
            LocalPosition::Grabbed { .. } => same_local,
        },
    ensures
        reconciled(Some(pointer), Some(pointer), same_local, time) is None,
{
}

/// A pointer that comes, goes, or gets over another layer is sent, whatever the
/// numbers say.
pub proof fn changes_of_target_are_sent(
    previous: Option<ResolvedPointer>,
    current: Option<ResolvedPointer>,
    same_local: bool,
    time: u32,
)
    requires
        (previous is Some != current is Some) || (previous is Some && current is Some && match (
            previous->0.target,
            current->0.target,
        ) {
            (Some(before), Some(after)) => before.surface != after.surface || before.layer
                != after.layer,
            (None, None) => false,
            _ => true,
        }),
    ensures
        reconciled(previous, current, same_local, time) is Some,
{
}

/// During a grab a button goes to the grabbed layer, with its own code and
/// state, and its place there is reckoned from the grab's anchor.
pub proof fn buttons_go_to_the_grabbed_layer(
    state: RoutingModel,
    geometric: Option<SurfaceHit>,
    position: InputPosition,
    button: LinuxButtonCode,
    change: ButtonState,
)
    requires
        state.grab is Some,
        !state.pressed.is_empty(),
    ensures
        state.effect(
            geometric,
            RawSeatEventKind::PointerButton { position: Some(position), button, state: change },
        ) matches SeatInputEffectKind::PointerButton {
            position: at,
            target: Some(hit),
            button: code,
            state: sent,
        } && at == position && code == button && sent == change && hit.surface == (
        state.grab->0).surface && hit.layer == (state.grab->0).layer && (hit.local_position matches
            LocalPosition::Grabbed { position: here, anchor, anchor_local } && here == position
            && anchor == (state.grab->0).anchor && anchor_local == (state.grab->0).anchor_local),
{
}

/// The first button pressed over a surface goes to the layer that was picked, at
/// the picked position, and starts a grab for it.
pub proof fn first_presses_reach_the_picked_layer(
    state: RoutingModel,
    hit: SurfaceHit,
    position: InputPosition,
    button: LinuxButtonCode,
)
    requires
        state.pressed.is_empty(),
    ensures
        ({
            let press = RawSeatEventKind::PointerButton {
                position: Some(position),
                button,
                state: ButtonState::Pressed,
            };
            let after = state.replayed(Some(hit), press);
            &&& state.effect(Some(hit), press) matches SeatInputEffectKind::PointerButton {
                position: at,
                target: Some(routed),
                button: code,
                state: sent,
            }
            &&& at == position && code == button && sent is Pressed
            &&& routed.surface == hit.surface && routed.layer == hit.layer
            &&& routed.local_position matches LocalPosition::Grabbed {
                position: here,
                anchor,
                anchor_local,
            }
            &&& here == position && anchor == position && anchor_local == hit.local_position
            &&& after.grab matches Some(grab)
            &&& grab.surface == hit.surface && grab.layer == hit.layer
            &&& grab.anchor == position && grab.anchor_local == hit.local_position
            &&& forall|other: u32| #[trigger] after.pressed.contains(other) <==> other == button.0
        }),
{
    let press = RawSeatEventKind::PointerButton {
        position: Some(position),
        button,
        state: ButtonState::Pressed,
    };
    assert(state.replayed(Some(hit), press).pressed == state.pressed.insert(button.0));
}

/// A press, a drag and the release of the same button all go to the layer that
/// was pressed, whatever lies under the pointer by then. After the release the
/// pointer is free again.
pub proof fn drags_stay_on_the_pressed_layer(
    state: RoutingModel,
    hit: SurfaceHit,
    below: Option<SurfaceHit>,
    elsewhere: Option<SurfaceHit>,
    from: InputPosition,
    over: InputPosition,
    to: InputPosition,
    button: LinuxButtonCode,
)
    requires
        state.pressed.is_empty(),
    ensures
        ({
            let press = RawSeatEventKind::PointerButton {
                position: Some(from),
                button,
                state: ButtonState::Pressed,
            };
            let drag = RawSeatEventKind::PointerMotion { position: over };
            let release = RawSeatEventKind::PointerButton {
                position: Some(to),
                button,
                state: ButtonState::Released,
            };
            let held = state.replayed(Some(hit), press);
            let dragged = held.replayed(below, drag);
            let freed = dragged.replayed(elsewhere, release);
            &&& held.effect(below, drag) matches SeatInputEffectKind::PointerMotion {
                position: moved,
                target: Some(on_drag),
            }
            &&& moved == over && on_drag.surface == hit.surface && on_drag.layer == hit.layer
            &&& on_drag.local_position == (LocalPosition::Grabbed {
                position: over,
                anchor: from,
                anchor_local: hit.local_position,
            })
            &&& dragged.effect(elsewhere, release) matches SeatInputEffectKind::PointerButton {
                position: at,
                target: Some(on_release),
                button: code,
                state: sent,
            }
            &&& at == to && code == button && sent is Released
            &&& on_release.surface == hit.surface && on_release.layer == hit.layer
            &&& on_release.local_position == (LocalPosition::Grabbed {
                position: to,
                anchor: from,
                anchor_local: hit.local_position,
            })
            &&& freed.grab is None && freed.pressed.is_empty()
        }),
{
    let press = RawSeatEventKind::PointerButton {
        position: Some(from),
        button,
        state: ButtonState::Pressed,
    };
    let drag = RawSeatEventKind::PointerMotion { position: over };
    let held = state.replayed(Some(hit), press);
    let dragged = held.replayed(below, drag);
    assert(state.pressed =~= Set::empty());
    assert(dragged.pressed == state.pressed.insert(button.0));
    assert(dragged.pressed.remove(button.0) =~= Set::empty());
}

/// While no button is held the pointer goes to the layer that was picked, at the
/// picked position, and to no client where none was.
pub proof fn free_pointers_go_to_the_picked_layer(
    state: RoutingModel,
    geometric: Option<SurfaceHit>,
    position: InputPosition,
)
    requires
        state.grab is None,
        state.pressed.is_empty(),
    ensures
        state.effect(geometric, RawSeatEventKind::PointerMotion { position }) matches
            SeatInputEffectKind::PointerMotion { position: at, target } && at == position && (
        target is Some <==> geometric is Some) && (target matches Some(hit) ==> hit.surface == (
        geometric->0).surface && hit.layer == (geometric->0).layer && hit.local_position
            == LocalPosition::Picked((geometric->0).local_position)),
{
}

/// A press that starts over no surface, and all that follows until the last
/// button is released, reaches no client; it starts no grab.
pub proof fn presses_beside_surfaces_reach_nobody(
    state: RoutingModel,
    geometric: Option<SurfaceHit>,
    position: Option<InputPosition>,
    button: LinuxButtonCode,
    change: ButtonState,
)
    requires
        state.grab is None,
        !state.pressed.is_empty() || geometric is None,
    ensures
        ({
            let event = RawSeatEventKind::PointerButton { position, button, state: change };
            &&& state.effect(geometric, event) matches SeatInputEffectKind::PointerButton {
                target,
                button: code,
                state: sent,
                ..
            }
            &&& target is None && code == button && sent == change
            &&& state.replayed(geometric, event).grab is None
        }),
{
}

/// A button event that names no place happens where the pointer was last known.
pub proof fn buttons_without_a_place_happen_at_the_last_one(
    state: RoutingModel,
    geometric: Option<SurfaceHit>,
    button: LinuxButtonCode,
    change: ButtonState,
)
    ensures
        ({
            let event = RawSeatEventKind::PointerButton { position: None, button, state: change };
            let named = RawSeatEventKind::PointerButton {
                position: Some(state.pointer.last_known_position),
                button,
                state: change,
            };
            &&& state.effect(geometric, event) == state.effect(geometric, named)
            &&& state.replayed(geometric, event).pointer == state.pointer
            &&& state.replayed(geometric, event).grab == state.replayed(geometric, named).grab
            &&& state.replayed(geometric, event).pressed == state.replayed(geometric, named).pressed
        }),
{
}

/// What a motion or a button told clients is what counts as sent, wherever the
/// host's pointer is known.
pub proof fn what_clients_see_is_remembered(
    state: RoutingModel,
    geometric: Option<SurfaceHit>,
    event: RawSeatEventKind,
)
    requires
        event is PointerMotion || event is PointerButton || (event is PointerLeft && state.grab is Some),
    ensures
        ({
            let after = state.replayed(geometric, event);
            &&& after.last_sent is Some <==> after.pointer.host_position is Some
            &&& after.last_sent matches Some(sent) ==> {
                &&& sent.position == after.pointer.host_position->0
                &&& state.effect(geometric, event) matches SeatInputEffectKind::PointerMotion {
                    target,
                    ..
                } ==> sent.target == target
                &&& state.effect(geometric, event) matches SeatInputEffectKind::PointerButton {
                    target,
                    ..
                } ==> sent.target == target
            }
        }),
{
}

/// An event that names a place puts the pointer there; one that names none
/// leaves it where it was.
pub proof fn events_put_the_pointer_where_they_happen(
    state: RoutingModel,
    geometric: Option<SurfaceHit>,
    place: Option<InputPosition>,
    button: LinuxButtonCode,
    change: ButtonState,
    axis: RawScrollFrame,
    event: RawSeatEventKind,
)
    requires
        event == (RawSeatEventKind::PointerButton { position: place, button, state: change })
            || event == (RawSeatEventKind::PointerAxis { position: place, axis }) || (place is Some
            && event == (RawSeatEventKind::PointerMotion { position: place->0 })),
    ensures
        match place {
            Some(position) => state.replayed(geometric, event).pointer.host_position == Some(
                position,
            ) && state.replayed(geometric, event).pointer.last_known_position == position,
            None => state.replayed(geometric, event).pointer == state.pointer,
        },
{
}

/// A pointer that leaves the host is followed as long as a grab holds it. A free
/// one is gone: its last place is kept, no client has it any more, and nothing
/// counts as sent.
pub proof fn pointers_leave_unless_grabbed(
    state: RoutingModel,
    geometric: Option<SurfaceHit>,
    position: InputPosition,
)
    ensures
        ({
            let leave = RawSeatEventKind::PointerLeft { position };
            let after = state.replayed(geometric, leave);
            &&& state.effect(geometric, leave) matches SeatInputEffectKind::PointerMotion {
                position: at,
                target,
            }
            &&& at == position
            &&& target is Some <==> state.grab is Some
            &&& target matches Some(hit) ==> {
                &&& hit.surface == (state.grab->0).surface
                &&& hit.layer == (state.grab->0).layer
                &&& hit.local_position == (LocalPosition::Grabbed {
                    position,
                    anchor: (state.grab->0).anchor,
                    anchor_local: (state.grab->0).anchor_local,
                })
            }
            &&& after.pointer.last_known_position == position
            &&& after.pointer.host_position == (if state.grab is Some {
                Some(position)
            } else {
                None
            })
            &&& after.last_sent is Some <==> state.grab is Some
            &&& after.grab == state.grab && after.pressed == state.pressed
        }),
{
}

/// Keys and scrolls are handed on as they come, and change neither the buttons
/// nor the grab nor what was sent; a key does not move the pointer either.
pub proof fn keys_and_scrolls_pass_through(
    state: RoutingModel,
    geometric: Option<SurfaceHit>,
    keycode: LinuxKeycode,
    logical_key: Option<LogicalKey>,
    change: ButtonState,
    place: Option<InputPosition>,
    axis: RawScrollFrame,
)
    ensures
        ({
            let key = RawSeatEventKind::Keyboard { keycode, logical_key, state: change };
            let scroll = RawSeatEventKind::PointerAxis { position: place, axis };
            let scrolled = state.replayed(geometric, scroll);
            &&& state.effect(geometric, key) == (SeatInputEffectKind::Keyboard {
                keycode,
                state: change,
            })
            &&& state.replayed(geometric, key) == state
            &&& state.effect(geometric, scroll) == (SeatInputEffectKind::PointerAxis { axis })
            &&& scrolled.last_sent == state.last_sent
            &&& scrolled.pressed == state.pressed && scrolled.grab == state.grab
        }),
{
}

/// A press adds its own button to those held and a release takes its own away;
/// of the other buttons nothing changes. A grab lasts until the last button of
/// those held is released, and further presses leave it as it is.
pub proof fn grabs_last_until_the_last_release(
    state: RoutingModel,
    geometric: Option<SurfaceHit>,
    position: Option<InputPosition>,
    button: LinuxButtonCode,
    change: ButtonState,
)
    requires
        !state.pressed.is_empty(),
    ensures
        ({
            let event = RawSeatEventKind::PointerButton { position, button, state: change };
            let after = state.replayed(geometric, event);
            &&& after.pressed.contains(button.0) <==> change is Pressed
            &&& forall|other: u32|
                other != button.0 ==> (#[trigger] after.pressed.contains(other)
                    <==> state.pressed.contains(other))
            &&& !after.pressed.is_empty() ==> after.grab == state.grab
            &&& after.pressed.is_empty() ==> after.grab is None
        }),
{
    if change is Pressed {
        let event = RawSeatEventKind::PointerButton { position, button, state: change };
        assert(state.replayed(geometric, event).pressed.contains(button.0));
    }
}

/// Motions, scrolls and keys neither press nor release buttons, and neither
/// start nor end a grab.
pub proof fn only_buttons_and_focus_change_grabs(
    state: RoutingModel,
    geometric: Option<SurfaceHit>,
    event: RawSeatEventKind,
)
    requires
        !(event is PointerButton),
        !(event is HostFocusLost),
    ensures
        state.replayed(geometric, event).pressed == state.pressed,
        state.replayed(geometric, event).grab == state.grab,
{
}

/// Losing the host's focus is told as such, and the place where the pointer was
/// last known is kept.
pub proof fn focus_loss_is_told(state: RoutingModel, geometric: Option<SurfaceHit>)
    ensures
        state.effect(geometric, RawSeatEventKind::HostFocusLost) is HostFocusLost,
        state.replayed(
            geometric,
            RawSeatEventKind::HostFocusLost,
        ).pointer.last_known_position == state.pointer.last_known_position,
{
}

/// Two batches one after the other do what they do as one batch: the effects
/// follow each other, and the state at the end is the same.
pub proof fn batches_can_be_joined(
    state: RoutingModel,
    geometric: Option<SurfaceHit>,
    first: Seq<RawSeatEvent>,
    second: Seq<RawSeatEvent>,
)
    ensures
        state.all_replayed(geometric, first + second) == state.all_replayed(
            geometric,
            first,
        ).all_replayed(geometric, second),
        state.effects(geometric, first + second) == state.effects(geometric, first)
            + state.all_replayed(geometric, first).effects(geometric, second),
{
    joined_batches_end_alike(state, geometric, first, second);
    let whole = first + second;
    let between = state.all_replayed(geometric, first);
    let split = state.effects(geometric, first) + between.effects(geometric, second);
    assert forall|i: int| 0 <= i < whole.len() implies #[trigger] state.effects(
        geometric,
        whole,
    )[i] == split[i] by {
        if i < first.len() {
            assert(whole.take(i) =~= first.take(i));
        } else {
            let j = i - first.len();
            joined_batches_end_alike(state, geometric, first, second.take(j));
            assert(whole.take(i) =~= first + second.take(j));
        }
    }
    assert(state.effects(geometric, whole) =~= split);
}

proof fn joined_batches_end_alike(
    state: RoutingModel,
    geometric: Option<SurfaceHit>,
    first: Seq<RawSeatEvent>,
    second: Seq<RawSeatEvent>,
)
    ensures
        state.all_replayed(geometric, first + second) == state.all_replayed(
            geometric,
            first,
        ).all_replayed(geometric, second),
    decreases second.len(),
{
    if second.len() == 0 {
        assert(first + second =~= first);
    } else {
        joined_batches_end_alike(state, geometric, first, second.drop_last());
        assert((first + second).drop_last() =~= first + second.drop_last());
        assert((first + second).last() == second.last());
    }
}

/// A batch of one event does what the event does.
pub proof fn single_events_are_batches(
    state: RoutingModel,
    geometric: Option<SurfaceHit>,
    event: RawSeatEvent,
)
    ensures
        state.all_replayed(geometric, seq![event]) == state.replayed(geometric, event.event),
        state.effects(geometric, seq![event]).len() == 1,
        state.effects(geometric, seq![event])[0].event == state.effect(geometric, event.event),
        state.effects(geometric, seq![event])[0].time == event.time,
{
    let batch = seq![event];
    assert(batch.drop_last() =~= Seq::empty());
    assert(batch.take(0) =~= Seq::empty());
    assert(state.all_replayed(geometric, batch.drop_last()) == state);
    assert(batch.last() == event);
}

/// A motion that brings clients up to date says where the pointer is and over
/// what; one for a pointer that is gone takes it from where it was to nobody. It
/// has the time that it is sent at.
pub proof fn updates_say_where_the_pointer_is(
    previous: Option<ResolvedPointer>,
    current: Option<ResolvedPointer>,
    same_local: bool,
    time: u32,
)
    ensures
        reconciled(previous, current, same_local, time) matches Some(effect) ==> {
            &&& effect.time == time
            &&& effect.event matches SeatInputEffectKind::PointerMotion { position, target }
            &&& current matches Some(now) ==> position == now.position && target == now.target
            &&& current is None ==> previous is Some && position == (previous->0).position
                && target is None
        },
        previous is None && current is None ==> reconciled(
            previous,
            current,
            same_local,
            time,
        ) is None,
{
}

/// A pointer that moved is sent, and so is one over another place of the same
/// layer.
pub proof fn moves_are_sent(
    previous: ResolvedPointer,
    current: ResolvedPointer,
    same_local: bool,
    time: u32,
)
    requires
        previous.position.x.rank() != current.position.x.rank() || previous.position.y.rank()
            != current.position.y.rank() || (previous.target is Some && current.target is Some
            && match ((previous.target->0).local_position, (current.target->0).local_position) {
            (LocalPosition::Picked(before), LocalPosition::Picked(after)) => before.x.rank()
                != after.x.rank() || before.y.rank() != after.y.rank(),
            _ => !same_local,
        }),
    ensures
        reconciled(Some(previous), Some(current), same_local, time) is Some,
{
}

/// A pointer over the place of the layer that it was over before, or over no
/// surface both times, is not sent again: the numbers alone decide.
pub proof fn equal_places_are_not_sent(
    previous: ResolvedPointer,
    current: ResolvedPointer,
    same_local: bool,
    time: u32,
)
    requires
        previous.position == current.position,
        !current.position.x.nan() && !current.position.y.nan(),
        match (previous.target, current.target) {
            (Some(before), Some(after)) => before.surface == after.surface && before.layer
                == after.layer && match (before.local_position, after.local_position) {
                (LocalPosition::Picked(place), LocalPosition::Picked(now)) => place == now
                    && !now.x.nan() && !now.y.nan(),
                _ => same_local,
            },
            (None, None) => true,
            _ => false,
        },
    ensures
        reconciled(Some(previous), Some(current), same_local, time) is None,
{
}

/// A grab outlives an update of the scene just if its layer is still shown;
/// nothing else of the routing depends on what is shown.
pub proof fn grabs_need_a_shown_layer(state: RoutingModel, shown: Seq<SurfaceInputNode>)
    ensures
        ({
            let after = state.without_hidden_grab(shown);
            &&& after.grab is None || after.grab == state.grab
            &&& after.grab is Some <==> state.grab is Some && exists|i: int|
                0 <= i < shown.len() && (#[trigger] shown[i]).surface == (state.grab->0).surface
                    && shown[i].layer == (state.grab->0).layer
            &&& after.pointer == state.pointer && after.last_sent == state.last_sent
            &&& after.pressed == state.pressed
        }),
{
}

/// Anchoring a grab anew leaves its layer, the buttons and what was sent as they
/// are; a grab on another layer than the picked one keeps its anchor.
pub proof fn reanchoring_keeps_the_layer(state: RoutingModel, geometric: Option<SurfaceHit>)
    ensures
        ({
            let after = state.reanchored(geometric);
            &&& after.grab is Some <==> state.grab is Some
            &&& state.grab is Some ==> (after.grab->0).surface == (state.grab->0).surface && (
            after.grab->0).layer == (state.grab->0).layer
            &&& geometric is None || state.pointer.host_position is None || (state.grab is Some && ((
            state.grab->0).surface != (geometric->0).surface || (state.grab->0).layer != (
            geometric->0).layer)) ==> after.grab == state.grab
            &&& after.pointer == state.pointer && after.last_sent == state.last_sent
            &&& after.pressed == state.pressed
        }),
{
}

/// A candidate is a hit just where it is a surface whose position and size are
/// known; the hit has all three.
pub proof fn hits_are_surfaces_in_full(candidate: PickCandidate)
    ensures
        candidate_hit(candidate) is Some <==> candidate.target is Some
            && candidate.centered_position is Some && candidate.size is Some,
        candidate_hit(candidate) matches Some(hit) ==> candidate.target == Some(hit.target)
            && candidate.centered_position == Some(hit.centered_position) && candidate.size == Some(
            hit.size,
        ),
{
}

/// A button that is replayed reaches the layer of the grab that is in force
/// during it: the one that was grabbed, or for the first press over a surface the
/// picked one. It has the event's button, state and time.
pub proof fn replayed_buttons_reach_their_layer(
    routing: &mut PointerRoutingState,
    geometric: Option<SurfaceHit>,
    position: InputPosition,
    button: LinuxButtonCode,
    change: ButtonState,
    time: u32,
    effect: Option<SeatInputEffect>,
)
    requires
        old(routing)@.grab is Some ==> !old(routing)@.pressed.is_empty(),
        call_ensures(
            PointerRoutingState::replay_seat_event,
            (
                routing,
                geometric,
                RawSeatEvent {
                    event: RawSeatEventKind::PointerButton {
                        position: Some(position),
                        button,
                        state: change,
                    },
                    time,
                },
            ),
            effect,
        ),
    ensures
        effect matches Some(told) && told.time == time && (told.event matches
            SeatInputEffectKind::PointerButton { position: at, target, button: code, state: sent }
            && at == position && code == button && sent == change && (old(routing)@.grab matches
            Some(grab) ==> target is Some && (target->0).surface == grab.surface && (
        target->0).layer == grab.layer) && (old(routing)@.pressed.is_empty() && geometric is Some
            && change is Pressed ==> target is Some && (target->0).surface == (
        geometric->0).surface && (target->0).layer == (geometric->0).layer) && (final(routing)@.last_sent matches Some(last) && last.target == target)),
{
}

/// The pointer is where the host last saw it, and nowhere before the host saw it.
pub proof fn resolved_pointers_are_on_the_host(
    routing: RoutingModel,
    geometric: Option<SurfaceHit>,
)
    ensures
        routing.resolved(geometric) is Some <==> routing.pointer.host_position is Some,
        routing.resolved(geometric) matches Some(pointer) ==> Some(pointer.position)
            == routing.pointer.host_position,
{
}

/// An effect of a motion tells the place and the target of the pointer, both as
/// they are, at the time it happened.
pub proof fn motion_effects_tell_the_pointer(
    pointer: ResolvedPointer,
    time: u32,
    effect: SeatInputEffect,
)
    requires
        call_ensures(pointer_motion_effect, (pointer, time), effect),
    ensures
        effect.time == time,
        effect.event matches SeatInputEffectKind::PointerMotion { position, target } && position
            == pointer.position && target == pointer.target,
{
}

} // verus!
