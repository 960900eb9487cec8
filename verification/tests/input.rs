use weldwm::nodes::SurfaceInputNode;
use weldwm::number::{Real32, Real64, Vec2};
use weldwm::projection::{
    bevy_scroll, mouse_button, pointer_button, MouseButton, PickingButton, ProjectedMessage,
    Projection, ScrollAmount, ScrollMessage,
};
use weldwm::raw_input::{
    ButtonState, InputPosition, LinuxButtonCode, LinuxKeycode, LogicalKey, PointerPositionState,
    RawScrollFrame, RawScrollPhase, RawScrollSource, RawSeatEvent, RawSeatEventKind,
};
use weldwm::routing::{
    pointer_motion_effect, reconcile_pointer, resolve_pick_candidates, ImplicitPointerGrab,
    LocalPosition, PickCandidate, PickedNode, PointerRoutingState, ResolvedPointer, RoutedHit,
    SeatInputEffect, SeatInputEffectKind, SurfaceHit,
};
use weldwm::surface::{SurfaceId, SurfaceLayerId};

fn double(value: f64) -> Real64 {
    Real64::new(value.to_bits())
}

fn position(x: f64, y: f64) -> InputPosition {
    InputPosition::new(double(x), double(y))
}

fn pair(x: f32, y: f32) -> Vec2 {
    Vec2::new(Real32::new(x.to_bits()), Real32::new(y.to_bits()))
}

fn numbers(position: InputPosition) -> (f64, f64) {
    (f64::from_bits(position.x.bits), f64::from_bits(position.y.bits))
}

/// A local position in numbers.
fn local(position: LocalPosition) -> (f64, f64) {
    match position {
        LocalPosition::Picked(position) => numbers(position),
        LocalPosition::Grabbed { position, anchor, anchor_local } => {
            let (x, y) = numbers(position);
            let (anchor_x, anchor_y) = numbers(anchor);
            let (local_x, local_y) = numbers(anchor_local);
            (x - (anchor_x - local_x), y - (anchor_y - local_y))
        }
    }
}

/// The position in client coordinates of a picked node.
fn client_position(hit: PickedNode) -> (f64, f64) {
    let (x, y) = numbers(hit.centered_position);
    let single = |value: Real32| f64::from(f32::from_bits(value.bits));
    (
        (x + 0.5) * single(hit.size.x) + single(hit.target.local_origin.x),
        (y + 0.5) * single(hit.size.y) + single(hit.target.local_origin.y),
    )
}

fn same_local(left: Option<ResolvedPointer>, right: Option<ResolvedPointer>) -> bool {
    let place = |pointer: ResolvedPointer| pointer.target.map(|hit| local(hit.local_position));
    left.and_then(place) == right.and_then(place)
}

fn hit(surface: u64, x: f64, y: f64) -> SurfaceHit {
    SurfaceHit {
        surface: SurfaceId::new(surface),
        layer: SurfaceLayerId::new(1),
        local_position: position(x, y),
    }
}

fn picked(hit: SurfaceHit) -> RoutedHit {
    RoutedHit {
        surface: hit.surface,
        layer: hit.layer,
        local_position: LocalPosition::Picked(hit.local_position),
    }
}

fn at(position: InputPosition) -> PointerPositionState {
    PointerPositionState {
        host_position: Some(position),
        last_known_position: position,
    }
}

fn projected(events: &[RawSeatEvent]) -> (Vec<ProjectedMessage>, Vec<SeatInputEffect>) {
    let mut projection = Projection::default();
    let mut routing = PointerRoutingState::default();
    let mut ingress = events.to_vec();
    let mut pending = Vec::new();
    let messages = projection.project_raw_input(&mut ingress, &mut pending);
    assert!(ingress.is_empty());
    let effects = routing.resolve_input_effects(&vec![], None, &pending);
    (messages, effects)
}

fn ordered_events() -> [RawSeatEvent; 3] {
    [
        RawSeatEvent::new(
            RawSeatEventKind::PointerMotion {
                position: position(12.0, 34.0),
            },
            7,
        ),
        RawSeatEvent::new(
            RawSeatEventKind::PointerButton {
                position: Some(position(12.0, 34.0)),
                button: LinuxButtonCode(0x110),
                state: ButtonState::Pressed,
            },
            8,
        ),
        RawSeatEvent::new(RawSeatEventKind::HostFocusLost, 9),
    ]
}

fn ordered_effects() -> [SeatInputEffect; 3] {
    [
        SeatInputEffect::new(
            SeatInputEffectKind::PointerMotion {
                position: position(12.0, 34.0),
                target: None,
            },
            7,
        ),
        SeatInputEffect::new(
            SeatInputEffectKind::PointerButton {
                position: position(12.0, 34.0),
                target: None,
                button: LinuxButtonCode(0x110),
                state: ButtonState::Pressed,
            },
            8,
        ),
        SeatInputEffect::new(SeatInputEffectKind::HostFocusLost, 9),
    ]
}

#[test]
fn input_raw_event_order_and_timestamps_survive_projection() {
    assert_eq!(projected(&ordered_events()).1, ordered_effects());
}

#[test]
fn tests_raw_event_order_and_timestamps_survive_projection() {
    assert_eq!(projected(&ordered_events()).1, ordered_effects());
}

fn held_key_and_button() -> [RawSeatEvent; 2] {
    [
        RawSeatEvent::new(
            RawSeatEventKind::Keyboard {
                keycode: LinuxKeycode(33),
                logical_key: Some(LogicalKey(102)),
                state: ButtonState::Pressed,
            },
            1,
        ),
        RawSeatEvent::new(
            RawSeatEventKind::PointerButton {
                position: Some(position(10.0, 10.0)),
                button: LinuxButtonCode(0x110),
                state: ButtonState::Pressed,
            },
            1,
        ),
    ]
}

fn focus_loss_releases_projected_inputs() {
    let mut projection = Projection::default();
    let mut pending = Vec::new();
    projection.project_raw_input(&mut held_key_and_button().to_vec(), &mut pending);
    assert!(projection.held.left);
    let messages = projection.project_raw_input(
        &mut vec![RawSeatEvent::new(RawSeatEventKind::HostFocusLost, 2)],
        &mut pending,
    );
    assert!(messages.contains(&ProjectedMessage::KeyboardFocusLost));
    assert!(messages.contains(&ProjectedMessage::MouseButton {
        button: MouseButton::Left,
        state: ButtonState::Released,
    }));
    assert!(!projection.held.left);
}

#[test]
fn host_focus_loss_releases_leafwing_inputs() {
    focus_loss_releases_projected_inputs();
}

#[test]
fn host_focus_loss_releases_leafwing_and_pointer_grabs() {
    focus_loss_releases_projected_inputs();

    let surface = SurfaceId::new(3);
    let mut routing = PointerRoutingState::new(
        PointerPositionState::default(),
        Some(ResolvedPointer {
            position: position(4.0, 5.0),
            target: None,
        }),
        Some(ImplicitPointerGrab {
            surface,
            layer: SurfaceLayerId::new(1),
            anchor: InputPosition::default(),
            anchor_local: InputPosition::default(),
        }),
    );
    routing.press(LinuxButtonCode(0x110));
    routing.clear_pointer_routing();
    assert!(!routing.has_pressed_buttons());
    assert_eq!(routing.implicit_grab, None);
    assert_eq!(routing.last_sent, None);
}

fn raw_keyboard_input_is_projected_and_routed() {
    let (messages, effects) = projected(&[RawSeatEvent::new(
        RawSeatEventKind::Keyboard {
            keycode: LinuxKeycode(33),
            logical_key: Some(LogicalKey(102)),
            state: ButtonState::Pressed,
        },
        41,
    )]);
    assert_eq!(
        messages,
        [ProjectedMessage::Keyboard {
            keycode: LinuxKeycode(33),
            logical_key: Some(LogicalKey(102)),
            state: ButtonState::Pressed,
        }]
    );
    assert_eq!(
        effects,
        [SeatInputEffect::new(
            SeatInputEffectKind::Keyboard {
                keycode: LinuxKeycode(33),
                state: ButtonState::Pressed,
            },
            41,
        )]
    );
}

#[test]
fn input_raw_keyboard_input_reaches_leafwing_in_the_same_update() {
    raw_keyboard_input_is_projected_and_routed();
}

#[test]
fn tests_raw_keyboard_input_reaches_leafwing_in_the_same_update() {
    raw_keyboard_input_is_projected_and_routed();
}

fn surface_candidate(surface: u64, centered: InputPosition, size: Vec2) -> PickCandidate {
    PickCandidate {
        target: Some(SurfaceInputNode {
            surface: SurfaceId::new(surface),
            layer: SurfaceLayerId::new(1),
            local_origin: Vec2::zero(),
        }),
        centered_position: Some(centered),
        size: Some(size),
    }
}

#[test]
fn topmost_surface_pick_is_authoritative() {
    let hit = resolve_pick_candidates(&vec![
        surface_candidate(1, InputPosition::default(), pair(100.0, 100.0)),
        surface_candidate(2, InputPosition::default(), pair(100.0, 100.0)),
    ])
    .expect("top surface should be routed");

    assert_eq!(hit.target.surface, SurfaceId::new(1));
}

#[test]
fn topmost_overlay_blocks_the_surface_below() {
    let overlay = PickCandidate {
        target: None,
        centered_position: Some(InputPosition::default()),
        size: Some(pair(100.0, 100.0)),
    };
    let surface = surface_candidate(1, InputPosition::default(), pair(100.0, 100.0));

    assert_eq!(resolve_pick_candidates(&vec![overlay, surface]), None);
    assert_eq!(resolve_pick_candidates(&vec![]), None);
    let unplaced = PickCandidate { size: None, ..surface };
    assert_eq!(resolve_pick_candidates(&vec![unplaced, surface]), None);
}

#[test]
fn centered_ui_coordinates_convert_to_surface_pixels() {
    let resolved = |x, y| {
        client_position(
            resolve_pick_candidates(&vec![surface_candidate(
                1,
                position(x, y),
                pair(640.0, 480.0),
            )])
            .expect("the position should be inside the picked surface"),
        )
    };
    assert_eq!(resolved(-0.5, -0.5), (0.0, 0.0));
    assert_eq!(resolved(0.25, -0.25), (480.0, 120.0));
    assert_eq!(resolved(0.5, 0.5), (640.0, 480.0));
}

#[test]
fn input_region_origin_is_restored_for_client_pointer_coordinates() {
    let hit = resolve_pick_candidates(&vec![PickCandidate {
        target: Some(SurfaceInputNode {
            surface: SurfaceId::new(1),
            layer: SurfaceLayerId::new(1),
            local_origin: pair(24.0, 32.0),
        }),
        centered_position: Some(position(-0.5, -0.5)),
        size: Some(pair(640.0, 480.0)),
    }])
    .expect("window geometry should remain pickable");

    assert_eq!(client_position(hit), (24.0, 32.0));
}

#[test]
fn losing_the_last_hit_emits_pointer_focus_clear() {
    let previous = ResolvedPointer {
        position: position(42.0, 24.0),
        target: Some(picked(hit(1, 2.0, 3.0))),
    };

    assert_eq!(
        reconcile_pointer(Some(previous), None, same_local(Some(previous), None), 9),
        Some(SeatInputEffect::new(
            SeatInputEffectKind::PointerMotion {
                position: previous.position,
                target: None,
            },
            9,
        ))
    );
}

#[test]
fn unchanged_pointer_does_not_emit_reconciliation_motion() {
    let current = Some(ResolvedPointer {
        position: position(5.0, 6.0),
        target: None,
    });

    assert_eq!(
        reconcile_pointer(current, current, same_local(current, current), 10),
        None
    );
}

#[test]
fn stationary_pointer_entering_a_surface_emits_motion() {
    let current = ResolvedPointer {
        position: position(50.0, 60.0),
        target: Some(picked(hit(2, 10.0, 20.0))),
    };

    assert_eq!(
        reconcile_pointer(None, Some(current), same_local(None, Some(current)), 11),
        Some(pointer_motion_effect(current, 11))
    );
}

#[test]
fn implicit_grab_keeps_routing_outside_the_surface() {
    let mut routing = PointerRoutingState::new(
        at(position(90.0, 100.0)),
        None,
        Some(ImplicitPointerGrab::new(
            position(30.0, 40.0),
            hit(7, 10.0, 15.0),
        )),
    );
    routing.press(LinuxButtonCode(0x110));

    let target = routing
        .routed_target(None, routing.pointer.host_position.unwrap())
        .expect("the grab keeps its target");
    assert_eq!(target.surface, SurfaceId::new(7));
    assert_eq!(target.layer, SurfaceLayerId::new(1));
    assert_eq!(local(target.local_position), (70.0, 75.0));
}

#[test]
fn press_without_surface_grab_swallows_client_routing() {
    let mut routing = PointerRoutingState::default();
    routing.press(LinuxButtonCode(0x110));

    assert_eq!(
        routing.routed_target(Some(hit(9, 1.0, 2.0)), position(5.0, 6.0)),
        None
    );
}

#[test]
fn final_grab_release_reconciles_to_pointer_leave() {
    let place = position(90.0, 100.0);
    let grabbed = Some(ResolvedPointer {
        position: place,
        target: Some(picked(hit(10, 70.0, 75.0))),
    });
    let routing = PointerRoutingState::new(at(place), None, None);
    let current = routing.resolved_pointer(None);

    assert_eq!(
        reconcile_pointer(grabbed, current, same_local(grabbed, current), 12),
        Some(SeatInputEffect::new(
            SeatInputEffectKind::PointerMotion {
                position: place,
                target: None,
            },
            12,
        ))
    );
}

#[test]
fn grabbed_motion_batch_replays_each_position_before_reanchoring() {
    let surface = SurfaceId::new(11);
    let initial_position = position(10.0, 10.0);
    let mut routing = PointerRoutingState::new(
        at(initial_position),
        None,
        Some(ImplicitPointerGrab::new(initial_position, hit(11, 2.0, 3.0))),
    );
    routing.press(LinuxButtonCode(0x110));
    let first_position = position(20.0, 20.0);
    let final_position = position(30.0, 25.0);

    let motions = [(first_position, 2, (12.0, 13.0)), (final_position, 3, (22.0, 18.0))];
    for (place, time, expected) in motions {
        let effect = routing
            .replay_seat_event(
                None,
                RawSeatEvent::new(RawSeatEventKind::PointerMotion { position: place }, time),
            )
            .expect("grabbed motion should route");
        assert_eq!(effect.time, time);
        match effect.event {
            SeatInputEffectKind::PointerMotion { position: at, target: Some(target) } => {
                assert_eq!(at, place);
                assert_eq!(target.surface, surface);
                assert_eq!(target.layer, SurfaceLayerId::new(1));
                assert_eq!(local(target.local_position), expected);
            }
            other => panic!("unexpected {other:?}"),
        }
    }

    routing.refresh_grab_origin(Some(hit(11, 40.0, 50.0)));
    let target = routing
        .implicit_grab
        .expect("grab should remain active")
        .target_at(final_position);
    assert_eq!(target.surface, surface);
    assert_eq!(local(target.local_position), (40.0, 50.0));
}

#[test]
fn agreeing_geometric_hit_refreshes_grab_origin() {
    let mut routing = PointerRoutingState::new(
        at(position(80.0, 90.0)),
        None,
        Some(ImplicitPointerGrab {
            surface: SurfaceId::new(8),
            layer: SurfaceLayerId::new(1),
            anchor: InputPosition::default(),
            anchor_local: InputPosition::default(),
        }),
    );

    routing.refresh_grab_origin(Some(hit(8, 20.0, 30.0)));

    let target = routing
        .implicit_grab
        .unwrap()
        .target_at(routing.pointer.host_position.unwrap());
    assert_eq!(target.surface, SurfaceId::new(8));
    assert_eq!(target.layer, SurfaceLayerId::new(1));
    assert_eq!(local(target.local_position), (20.0, 30.0));
}

#[test]
fn pointer_axis_does_not_absorb_a_pending_focus_reconciliation() {
    let place = position(80.0, 90.0);
    let previous = ResolvedPointer {
        position: place,
        target: Some(picked(hit(1, 10.0, 20.0))),
    };
    let next = hit(2, 30.0, 40.0);
    let mut routing = PointerRoutingState::new(at(place), Some(previous), None);

    let effect = routing.replay_seat_event(
        Some(next),
        RawSeatEvent::new(
            RawSeatEventKind::PointerAxis {
                position: Some(place),
                axis: RawScrollFrame {
                    source: RawScrollSource::Wheel,
                    phase: RawScrollPhase::Moved,
                    horizontal: double(0.0),
                    vertical: double(15.0),
                    horizontal_v120: None,
                    vertical_v120: Some(120),
                    horizontal_stop: false,
                    vertical_stop: false,
                },
            },
            11,
        ),
    );

    assert!(matches!(
        effect,
        Some(SeatInputEffect {
            event: SeatInputEffectKind::PointerAxis { .. },
            time: 11,
        })
    ));
    assert_eq!(routing.last_sent, Some(previous));
    let current = routing.resolved_pointer(Some(next));
    let expected = Some(pointer_motion_effect(
        ResolvedPointer {
            position: place,
            target: Some(picked(next)),
        },
        11,
    ));
    let same = same_local(routing.last_sent, current);
    assert_eq!(reconcile_pointer(routing.last_sent, current, same, 11), expected);
    assert_eq!(routing.reconcile(Some(next), same, 11), expected);
    assert_eq!(routing.last_sent, current);
    assert_eq!(routing.reconcile(Some(next), true, 12), None);
}

#[test]
fn pointers_are_compared_by_place_and_target() {
    let place = position(5.0, 6.0);
    let over = |hit: SurfaceHit| {
        Some(ResolvedPointer {
            position: place,
            target: Some(picked(hit)),
        })
    };
    let first = over(hit(1, 2.0, 3.0));
    // Picked positions need no help.
    assert_eq!(reconcile_pointer(first, first, false, 1), None);
    assert!(reconcile_pointer(first, over(hit(1, 2.0, 4.0)), true, 1).is_some());
    assert!(reconcile_pointer(first, over(hit(2, 2.0, 3.0)), true, 1).is_some());
    let away = Some(ResolvedPointer {
        position: place,
        target: None,
    });
    assert!(reconcile_pointer(first, away, true, 1).is_some());
    assert_eq!(reconcile_pointer(None, None, false, 1), None);
    let zero = |x| {
        Some(ResolvedPointer {
            position: position(x, 1.0),
            target: None,
        })
    };
    assert_eq!(reconcile_pointer(zero(0.0), zero(-0.0), false, 1), None);
    assert!(reconcile_pointer(zero(f64::NAN), zero(f64::NAN), true, 1).is_some());
    let grab = ImplicitPointerGrab::new(place, hit(1, 2.0, 3.0));
    let grabbed = Some(ResolvedPointer {
        position: place,
        target: Some(grab.target_at(place)),
    });
    assert_eq!(reconcile_pointer(first, grabbed, same_local(first, grabbed), 1), None);
    assert!(reconcile_pointer(first, grabbed, false, 1).is_some());
}

#[test]
fn bevy_scroll_reverses_wayland_axes_and_scales_v120() {
    let wheel = RawScrollFrame {
        source: RawScrollSource::Wheel,
        phase: RawScrollPhase::Moved,
        horizontal: double(-30.0),
        vertical: double(45.0),
        horizontal_v120: Some(-240),
        vertical_v120: Some(360),
        horizontal_stop: false,
        vertical_stop: false,
    };
    let continuous = RawScrollFrame {
        source: RawScrollSource::Continuous,
        phase: RawScrollPhase::Started,
        horizontal: double(-4.5),
        vertical: double(2.5),
        horizontal_v120: None,
        vertical_v120: None,
        horizontal_stop: false,
        vertical_stop: false,
    };
    let reversed = |message: ScrollMessage| match message.amount {
        ScrollAmount::Lines { horizontal_v120, vertical_v120 } => (
            "line",
            -f64::from(horizontal_v120) / 120.0,
            -f64::from(vertical_v120) / 120.0,
            message.phase,
        ),
        ScrollAmount::Pixels { horizontal, vertical } => (
            "pixel",
            -f64::from_bits(horizontal.bits),
            -f64::from_bits(vertical.bits),
            message.phase,
        ),
    };

    assert_eq!(
        reversed(bevy_scroll(wheel)),
        ("line", 2.0, -3.0, RawScrollPhase::Moved)
    );
    assert_eq!(
        reversed(bevy_scroll(continuous)),
        ("pixel", 4.5, -2.5, RawScrollPhase::Started)
    );
}

#[test]
fn motions_name_where_they_came_from() {
    let moved = |x, y, time| {
        RawSeatEvent::new(RawSeatEventKind::PointerMotion { position: position(x, y) }, time)
    };
    let left = RawSeatEvent::new(RawSeatEventKind::PointerLeft { position: position(9.0, 9.0) }, 3);
    let (messages, effects) = projected(&[moved(1.0, 2.0, 1), moved(3.0, 4.0, 2), left]);
    assert_eq!(
        messages,
        [
            ProjectedMessage::PointerMove { from: None, to: position(1.0, 2.0) },
            ProjectedMessage::MouseMotion { from: position(1.0, 2.0), to: position(3.0, 4.0) },
            ProjectedMessage::PointerMove {
                from: Some(position(1.0, 2.0)),
                to: position(3.0, 4.0)
            },
            ProjectedMessage::PointerOutside,
        ]
    );
    assert_eq!(
        effects[2].event,
        SeatInputEffectKind::PointerMotion { position: position(9.0, 9.0), target: None }
    );
}

#[test]
fn buttons_map_by_their_codes() {
    let codes = [0x110, 0x111, 0x112, 0x113, 0x114, 0x115].map(LinuxButtonCode);
    assert_eq!(
        codes.map(mouse_button),
        [
            Some(MouseButton::Left),
            Some(MouseButton::Right),
            Some(MouseButton::Middle),
            Some(MouseButton::Back),
            Some(MouseButton::Forward),
            None,
        ]
    );
    assert_eq!(
        codes.map(pointer_button),
        [
            Some(PickingButton::Primary),
            Some(PickingButton::Secondary),
            Some(PickingButton::Middle),
            None,
            None,
            None,
        ]
    );
}

#[test]
fn grabs_end_with_their_layer_or_the_last_button() {
    let button = |code, state| {
        RawSeatEvent::new(
            RawSeatEventKind::PointerButton {
                position: Some(position(5.0, 5.0)),
                button: LinuxButtonCode(code),
                state,
            },
            1,
        )
    };
    let over = Some(hit(6, 1.0, 1.0));
    let node = SurfaceInputNode {
        surface: SurfaceId::new(6),
        layer: SurfaceLayerId::new(1),
        local_origin: Vec2::zero(),
    };
    let mut routing = PointerRoutingState::default();
    let presses = vec![
        button(0x110, ButtonState::Pressed),
        button(0x111, ButtonState::Pressed),
        button(0x110, ButtonState::Released),
    ];
    routing.resolve_input_effects(&vec![node], over, &presses);
    assert!(routing.implicit_grab.is_some());
    routing.resolve_input_effects(&vec![node], None, &vec![button(0x111, ButtonState::Released)]);
    assert!(routing.implicit_grab.is_none());
    assert!(!routing.has_pressed_buttons());

    routing.resolve_input_effects(&vec![node], over, &vec![button(0x110, ButtonState::Pressed)]);
    assert!(routing.implicit_grab.is_some());
    let other_layer = SurfaceInputNode { layer: SurfaceLayerId::new(2), ..node };
    routing.resolve_input_effects(&vec![other_layer], over, &vec![]);
    assert!(routing.implicit_grab.is_none());
    assert!(routing.has_pressed_buttons());
    assert_eq!(routing.routed_target(over, position(5.0, 5.0)), None);
}
