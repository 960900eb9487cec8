use weldwm::layer::{SHELL_Z_INDEX, WINDOW_Z_INDEX_MAX, WINDOW_Z_INDEX_MIN};
use weldwm::nodes::{plan_surface_node, SurfaceNodePlan};
use weldwm::number::{Real32, Vec2};
use weldwm::presentation::{
    present_client_windows, present_server_windows, revoke_mismatched_presentations,
    PresentationKind, PresentationSource,
};
use weldwm::scene::{SurfaceRole, SurfaceScene};
use weldwm::surface::{
    HostSurfaceEvent, HostSurfaceEventKind, MappedSurface, SurfaceAction, SurfaceActionQueue,
    SurfaceBufferContent, SurfaceBufferUpdate, SurfaceContentView, SurfaceEventQueue, SurfaceId,
    SurfaceInputPlacement, SurfaceInputRect, SurfaceLayerId, SurfaceLayerPlacement, SurfaceNode,
    SurfaceTreeSnapshot, SurfaceView, SurfaceWindowGeometry, WindowDecoration,
    WindowInteractionRequestKind, WindowResizeEdge,
};
use weldwm::window::{
    drag_window, focus_window, initialize_window_placements, nearest_window, record_resize,
    sync_default_window_state, AxisPosition, DragEvent, DragPlan, ShadowChange, WindowInteraction,
    WindowPlan, WindowRoot, WindowSurface,
};
use weldwm::window_stack::{
    next_window_z, rebase_window_order, rebase_window_stack, WindowPlacement, WindowStack,
};

fn single(value: f32) -> Real32 {
    Real32::new(value.to_bits())
}

fn float(value: Real32) -> f32 {
    f32::from_bits(value.bits)
}

fn pair(x: f32, y: f32) -> Vec2 {
    Vec2::new(single(x), single(y))
}

fn numbers(value: Vec2) -> (f32, f32) {
    (float(value.x), float(value.y))
}

fn view(x: f32, y: f32, width: f32, height: f32) -> SurfaceContentView {
    SurfaceContentView {
        source_x: single(x),
        source_y: single(y),
        source_width: single(width),
        source_height: single(height),
        source_right: single(x + width),
        source_bottom: single(y + height),
        logical_width: single(width),
        logical_height: single(height),
    }
}

fn frame(surface: SurfaceId, width: u32, height: u32) -> HostSurfaceEvent {
    frame_with_geometry(surface, width, height, (0.0, 0.0), (width as f32, height as f32))
}

fn frame_with_geometry(
    surface: SurfaceId,
    width: u32,
    height: u32,
    origin: (f32, f32),
    size: (f32, f32),
) -> HostSurfaceEvent {
    let layer = SurfaceLayerId::new(1);
    HostSurfaceEvent {
        surface,
        kind: HostSurfaceEventKind::TreeSnapshot(SurfaceTreeSnapshot {
            client_mapped: true,
            root: Some(SurfaceLayerPlacement {
                layer,
                position: Vec2::zero(),
                view: view(0.0, 0.0, width as f32, height as f32),
            }),
            window_geometry: Some(SurfaceWindowGeometry {
                origin: pair(origin.0, origin.1),
                view: view(origin.0, origin.1, size.0, size.1),
            }),
            overlays: Vec::new(),
            inputs: vec![SurfaceInputPlacement {
                layer,
                position: Vec2::zero(),
                regions: vec![SurfaceInputRect {
                    position: pair(origin.0, origin.1),
                    size: pair(size.0, size.1),
                }],
            }],
            buffers: vec![SurfaceBufferUpdate {
                layer,
                width,
                height,
                extent: pair(width as f32, height as f32),
                content: SurfaceBufferContent::Pixels(vec![
                    0;
                    width as usize * height as usize * 4
                ]),
                opaque: true,
            }],
        }),
    }
}

fn unmapped(surface: SurfaceId) -> HostSurfaceEvent {
    HostSurfaceEvent {
        surface,
        kind: HostSurfaceEventKind::TreeSnapshot(SurfaceTreeSnapshot {
            client_mapped: false,
            root: None,
            window_geometry: None,
            overlays: Vec::new(),
            inputs: Vec::new(),
            buffers: Vec::new(),
        }),
    }
}

fn interaction(surface: SurfaceId, kind: WindowInteractionRequestKind) -> HostSurfaceEvent {
    HostSurfaceEvent {
        surface,
        kind: HostSurfaceEventKind::WindowInteraction(kind),
    }
}

fn server_decorated(surface: SurfaceId) -> HostSurfaceEvent {
    HostSurfaceEvent {
        surface,
        kind: HostSurfaceEventKind::DecorationChanged {
            decoration: WindowDecoration::ServerSide,
        },
    }
}

/// A shell that puts every new window at the same place.
struct Shell {
    scene: SurfaceScene,
    queue: SurfaceEventQueue,
    surfaces: Vec<SurfaceId>,
    placements: Vec<(SurfaceId, WindowPlacement)>,
    shadows: Vec<SurfaceId>,
    stack: WindowStack,
    focus: Option<SurfaceId>,
    interaction: Option<WindowInteraction>,
    actions: SurfaceActionQueue,
    plans: Vec<(SurfaceId, WindowPlan)>,
}

const START: (f32, f32) = (100.0, 50.0);

impl Shell {
    fn new() -> Shell {
        Shell {
            scene: SurfaceScene::new(true),
            queue: SurfaceEventQueue::default(),
            surfaces: Vec::new(),
            placements: Vec::new(),
            shadows: Vec::new(),
            stack: WindowStack::default(),
            focus: None,
            interaction: None,
            actions: SurfaceActionQueue::default(),
            plans: Vec::new(),
        }
    }

    fn register(&mut self, surface: SurfaceId) {
        self.surfaces.push(surface);
        self.queue.push(HostSurfaceEvent {
            surface,
            kind: HostSurfaceEventKind::Created {
                decoration: WindowDecoration::ClientSide,
            },
        });
    }

    fn mapped(&self, surface: SurfaceId) -> Option<MappedSurface> {
        self.scene.entity(surface)?.shown.as_ref().map(|shown| shown.1)
    }

    fn placement(&self, surface: SurfaceId) -> Option<WindowPlacement> {
        self.placements
            .iter()
            .find(|placed| placed.0 == surface)
            .map(|placed| placed.1)
    }

    fn client_owned(&self, surface: SurfaceId) -> bool {
        self.scene.entity(surface).is_some_and(|entity| {
            matches!(entity.role, SurfaceRole::Window(WindowDecoration::ClientSide))
        })
    }

    fn update(&mut self) {
        self.scene.apply_host_surface_events(&mut self.queue);
        let scene = &self.scene;
        self.surfaces.retain(|surface| scene.entity(*surface).is_some());
        self.placements.retain(|placed| scene.entity(placed.0).is_some());
        let unplaced = self
            .surfaces
            .iter()
            .filter(|surface| {
                self.mapped(**surface).is_some() && self.placement(**surface).is_none()
            })
            .map(|surface| surface.raw())
            .collect();
        for placed in initialize_window_placements(
            &unplaced,
            &mut self.stack,
            &mut self.focus,
            &mut self.actions,
        ) {
            let placement = WindowPlacement {
                position: pair(START.0, START.1),
                z_index: placed.z_index,
            };
            self.placements.push((placed.surface, placement));
        }
        let states = self
            .placements
            .iter()
            .map(|(surface, placement)| {
                let mapped = self.mapped(*surface);
                let size = mapped.map_or((0.0, 0.0), |mapped| numbers(mapped.logical_size));
                WindowSurface {
                    surface: *surface,
                    mapped,
                    whole_width: size.0.round() as u32,
                    whole_height: size.1.round() as u32,
                    revision: self.scene.entity(*surface).map_or(0, |entity| entity.revision),
                    placement: *placement,
                    client_owned: self.client_owned(*surface),
                }
            })
            .collect();
        let windows: Vec<WindowRoot> = self
            .placements
            .iter()
            .map(|placed| WindowRoot {
                surface: placed.0,
                has_shadow: self.shadows.contains(&placed.0),
            })
            .collect();
        let requests = self.scene.take_interaction_requests();
        let plans = sync_default_window_state(
            &states,
            &windows,
            &requests,
            &mut self.interaction,
            &mut self.focus,
            &mut self.actions,
        );
        self.plans = windows.iter().map(|window| window.surface).zip(plans).collect();
        for (surface, plan) in self.plans.clone() {
            match plan.shadow {
                ShadowChange::Insert => self.shadows.push(surface),
                ShadowChange::Remove => self.shadows.retain(|shadow| *shadow != surface),
                ShadowChange::Keep => {}
            }
            if let Some(position) = plan.position {
                if position.replaces_placement {
                    let place = pair(axis(position.x), axis(position.y));
                    self.place(surface, place);
                }
            }
        }
    }

    fn place(&mut self, surface: SurfaceId, position: Vec2) {
        for placed in &mut self.placements {
            if placed.0 == surface {
                placed.1.position = position;
            }
        }
    }

    fn plan(&self, surface: SurfaceId) -> WindowPlan {
        self.plans
            .iter()
            .find(|plan| plan.0 == surface)
            .expect("the window is presented")
            .1
    }

    fn press(&mut self, surface: SurfaceId) {
        let source = self.placements.iter().position(|placed| placed.0 == surface);
        let mut placements = self.placements.iter().map(|placed| placed.1).collect();
        focus_window(
            surface,
            source,
            &mut self.stack,
            &mut placements,
            &mut self.focus,
            &mut self.actions,
        );
        for (placed, placement) in self.placements.iter_mut().zip(placements) {
            placed.1 = placement;
        }
    }

    fn drag(&mut self, surface: SurfaceId, delta: (f32, f32), scale: f32, target: DragEvent) {
        let (dx, dy) = (delta.0 / scale, delta.1 / scale);
        match drag_window(target, surface, &self.interaction) {
            DragPlan::Ignore => {}
            DragPlan::Translate => {
                let (x, y) = numbers(self.placement(surface).expect("placed").position);
                self.place(surface, pair(x + dx, y + dy));
            }
            DragPlan::Resize(edges) => {
                let active = self.interaction.as_mut().expect("a resize is running");
                let size = resized(numbers(active.desired_size), (dx, dy), edges);
                record_resize(
                    active,
                    pair(size.0, size.1),
                    size.0.max(1.0).round() as u32,
                    size.1.max(1.0).round() as u32,
                    &mut self.actions,
                );
            }
        }
    }

    fn take_actions(&mut self) -> Vec<SurfaceAction> {
        self.actions.take_surface_actions()
    }
}

fn axis(position: AxisPosition) -> f32 {
    match position {
        AxisPosition::Placed(value) => float(value),
        AxisPosition::Anchored { anchor_position, anchor_size, size } => {
            float(anchor_position) + float(anchor_size) - float(size)
        }
    }
}

fn resized(size: (f32, f32), delta: (f32, f32), edges: WindowResizeEdge) -> (f32, f32) {
    let (mut width, mut height) = size;
    if edges.has_left() {
        width -= delta.0;
    } else if edges.has_right() {
        width += delta.0;
    }
    if edges.has_top() {
        height -= delta.1;
    } else if edges.has_bottom() {
        height += delta.1;
    }
    (width, height)
}

fn content_drag(scale: f32) -> DragEvent {
    DragEvent {
        primary: true,
        server_window: false,
        shell_target: false,
        direct: true,
        scale: single(scale),
    }
}

fn focused(surface: SurfaceId) -> SurfaceAction {
    SurfaceAction::Focus {
        surface: Some(surface),
    }
}

#[test]
fn fallback_claims_a_mapped_surface_and_builds_backed_ui_in_one_update() {
    let mut shell = Shell::new();
    let surface = SurfaceId::new(37);
    shell.register(surface);
    shell.queue.push(frame(surface, 320, 240));

    shell.update();

    let mapped = shell.mapped(surface).expect("surface should be mapped");
    assert_eq!(mapped.logical_size, pair(320.0, 240.0));
    assert!(shell.plan(surface).displayed);
    let node = SurfaceNode {
        surface,
        view: SurfaceView::FullSurface,
    };
    let content = shell
        .scene
        .entity(surface)
        .and_then(|entity| entity.shown.as_ref())
        .map(|shown| &shown.0)
        .expect("presentation should contain one backed surface");
    match plan_surface_node(node, None, Some(content), &vec![], &vec![]) {
        SurfaceNodePlan::Show { view, .. } => {
            assert_eq!(numbers(Vec2::new(view.logical_width, view.logical_height)), (320.0, 240.0))
        }
        SurfaceNodePlan::Hide { .. } => panic!("the surface is shown"),
    }
    assert!(shell
        .scene
        .images()
        .expect("images are available")
        .contains(content.root.image));
}

#[test]
fn decoration_swap_preserves_client_overflow_and_the_geometry_anchor() {
    let mut shell = Shell::new();
    let surface = SurfaceId::new(38);
    shell.register(surface);
    shell
        .queue
        .push(frame_with_geometry(surface, 360, 276, (20.0, 18.0), (320.0, 240.0)));
    shell.update();

    assert!(shell.client_owned(surface));
    let mapped = shell.mapped(surface).expect("mapped");
    assert_eq!(mapped.logical_size, pair(320.0, 240.0));
    assert_eq!(mapped.visual_offset, pair(-20.0, -18.0));
    assert_eq!(mapped.visual_size, pair(360.0, 276.0));
    assert!(mapped.has_visual_overflow());
    let position = shell.plan(surface).position.expect("placed");
    assert_eq!((axis(position.x), axis(position.y)), START);
    assert_eq!(position.visual_offset, pair(-20.0, -18.0));
    assert_eq!(shell.plan(surface).shadow, ShadowChange::Keep);
    assert!(shell.shadows.is_empty());

    shell
        .queue
        .push(interaction(surface, WindowInteractionRequestKind::Move));
    shell.update();
    shell.drag(surface, (7.0, 9.0), 1.0, content_drag(1.0));
    let placement = shell.placement(surface).expect("placed");
    assert_eq!(numbers(placement.position), (START.0 + 7.0, START.1 + 9.0));
    shell
        .queue
        .push(interaction(surface, WindowInteractionRequestKind::End));
    shell.update();

    shell.queue.push(server_decorated(surface));
    shell.update();
    assert!(!shell.client_owned(surface));
    let mut sources = vec![PresentationSource {
        surface,
        decoration: Some(WindowDecoration::ServerSide),
        z_index: Some(placement.z_index),
        presented: Some(PresentationKind::Client),
    }];
    assert_eq!(revoke_mismatched_presentations(&mut sources), [surface]);
    assert!(present_client_windows(&mut sources, true).is_empty());
    let made = present_server_windows(&mut sources, true);
    assert_eq!(made.len(), 1);
    assert_eq!((made[0].surface, made[0].z_index), (surface, placement.z_index));
    assert_eq!(shell.placement(surface), Some(placement));
    let plan = shell.plan(surface);
    let position = plan.position.expect("placed");
    assert_eq!((axis(position.x), axis(position.y)), numbers(placement.position));
    assert_eq!(position.visual_offset, Vec2::zero());
    assert_eq!(plan.z_index, Some(placement.z_index));

    let node = SurfaceNode {
        surface,
        view: SurfaceView::WindowGeometry,
    };
    let shown = shell.scene.entity(surface).and_then(|entity| entity.shown.as_ref());
    match plan_surface_node(node, None, shown.map(|shown| &shown.0), &vec![], &vec![]) {
        SurfaceNodePlan::Show { view, origin, input_parts, .. } => {
            assert_eq!((float(view.source_x), float(view.source_y)), (20.0, 18.0));
            assert_eq!((float(view.source_right), float(view.source_bottom)), (340.0, 258.0));
            assert_eq!((float(view.logical_width), float(view.logical_height)), (320.0, 240.0));
            assert_eq!(input_parts[0].rectangle.position, origin);
        }
        SurfaceNodePlan::Hide { .. } => panic!("the surface is shown"),
    }
}

#[test]
fn validated_client_move_activates_mid_drag() {
    let mut shell = Shell::new();
    let surface = SurfaceId::new(39);
    shell.register(surface);
    shell.queue.push(frame(surface, 320, 240));
    shell.update();
    shell.take_actions();

    shell
        .queue
        .push(interaction(surface, WindowInteractionRequestKind::Move));
    shell.update();
    assert!(shell.interaction.is_some());
    shell.drag(surface, (12.0, 8.0), 1.0, content_drag(1.0));

    assert_eq!(
        numbers(shell.placement(surface).expect("placed").position),
        (START.0 + 12.0, START.1 + 8.0)
    );
}

#[test]
fn left_resize_anchors_to_committed_sizes_through_the_final_snapshot() {
    let mut shell = Shell::new();
    let surface = SurfaceId::new(40);
    shell.register(surface);
    shell.queue.push(frame(surface, 100, 80));
    shell.update();
    shell.take_actions();

    shell.queue.push(interaction(
        surface,
        WindowInteractionRequestKind::Resize {
            edges: WindowResizeEdge::Left,
        },
    ));
    shell.update();
    shell.drag(surface, (10.0, 0.0), 1.0, content_drag(1.0));
    assert_eq!(
        shell.take_actions(),
        [SurfaceAction::Resize {
            surface,
            width: 90,
            height: 80,
        }]
    );
    let position = |shell: &Shell| numbers(shell.placement(surface).expect("placed").position);
    assert_eq!(position(&shell), START);

    shell.queue.push(frame(surface, 95, 80));
    shell.update();
    assert_eq!(position(&shell), (START.0 + 5.0, START.1));

    shell
        .queue
        .push(interaction(surface, WindowInteractionRequestKind::End));
    shell.update();
    assert!(shell.interaction.is_some());
    shell.queue.push(frame(surface, 90, 80));
    shell.update();
    assert_eq!(position(&shell), (START.0 + 10.0, START.1));
    assert!(shell.interaction.is_none());
}

#[test]
fn fallback_presents_multiple_surfaces_with_independent_roots() {
    let mut shell = Shell::new();
    let first = SurfaceId::new(51);
    let second = SurfaceId::new(52);
    for surface in [first, second] {
        shell.register(surface);
        shell.queue.push(frame(surface, 4, 3));
    }

    shell.update();

    assert_eq!(shell.plans.len(), 2);
    assert_eq!(shell.plan(first).z_index, Some(WINDOW_Z_INDEX_MIN));
    assert!(!shell.plan(first).focused);
    assert_eq!(shell.plan(second).z_index, Some(WINDOW_Z_INDEX_MIN + 1));
    assert!(shell.plan(second).focused);
    assert_eq!(shell.take_actions(), [focused(first), focused(second)]);
}

#[test]
fn pressing_and_destroying_windows_updates_focus_without_replacing_siblings() {
    let mut shell = Shell::new();
    let first = SurfaceId::new(61);
    let second = SurfaceId::new(62);
    for surface in [first, second] {
        shell.register(surface);
        shell.queue.push(frame(surface, 4, 3));
    }
    shell.update();
    shell.take_actions();

    shell.press(first);
    assert_eq!(shell.take_actions(), [focused(first)]);
    assert!(
        shell.placement(first).expect("placed").z_index
            > shell.placement(second).expect("placed").z_index
    );

    shell.queue.push(HostSurfaceEvent {
        surface: first,
        kind: HostSurfaceEventKind::Destroyed,
    });
    shell.update();
    assert_eq!(
        shell.plans.iter().map(|plan| plan.0).collect::<Vec<_>>(),
        [second]
    );
    assert_eq!(shell.take_actions(), [focused(second)]);
}

#[test]
fn unmap_preserves_and_hides_the_presentation_then_destroy_cleans_it_up() {
    let mut shell = Shell::new();
    let surface = SurfaceId::new(41);
    shell.register(surface);
    shell.queue.push(frame(surface, 2, 2));
    shell.update();
    assert_eq!(shell.take_actions(), [focused(surface)]);
    let placement = shell.placement(surface);

    shell.queue.push(unmapped(surface));
    shell.update();
    assert!(shell.mapped(surface).is_none());
    assert!(!shell.plan(surface).displayed);
    assert_eq!(shell.take_actions(), [SurfaceAction::Focus { surface: None }]);

    shell.queue.push(frame(surface, 3, 2));
    shell.update();
    assert_eq!(shell.placement(surface), placement);
    assert!(shell.plan(surface).displayed);
    assert_eq!(shell.take_actions(), [focused(surface)]);

    shell.queue.push(HostSurfaceEvent {
        surface,
        kind: HostSurfaceEventKind::Destroyed,
    });
    shell.update();
    assert!(shell.scene.entity(surface).is_none());
    assert!(shell.plans.is_empty());
}

#[test]
fn window_observers_drag_only_chrome_and_emit_close_actions() {
    let mut shell = Shell::new();
    let surface = SurfaceId::new(43);
    shell.register(surface);
    shell.queue.push(server_decorated(surface));
    shell.queue.push(frame(surface, 2, 2));
    shell.update();
    assert_eq!(shell.take_actions(), [focused(surface)]);

    let chrome = DragEvent {
        primary: true,
        server_window: true,
        shell_target: true,
        direct: true,
        scale: single(1.5),
    };
    let content = DragEvent { shell_target: false, ..chrome };
    let button = DragEvent { direct: false, ..chrome };
    for target in [content, button] {
        shell.drag(surface, (12.0, 8.0), 1.5, target);
        assert_eq!(numbers(shell.placement(surface).expect("placed").position), START);
    }

    shell.drag(surface, (12.0, 8.0), 1.5, chrome);
    assert_eq!(
        numbers(shell.placement(surface).expect("placed").position),
        (START.0 + 12.0 / 1.5, START.1 + 8.0 / 1.5)
    );

    shell.actions.push(SurfaceAction::Close { surface });
    assert_eq!(shell.take_actions(), [SurfaceAction::Close { surface }]);
}

#[test]
fn drags_need_the_primary_button_and_a_usable_scale() {
    let surface = SurfaceId::new(1);
    let chrome = DragEvent {
        primary: true,
        server_window: true,
        shell_target: true,
        direct: true,
        scale: single(1.0),
    };
    assert_eq!(drag_window(chrome, surface, &None), DragPlan::Translate);
    let secondary = DragEvent { primary: false, ..chrome };
    assert_eq!(drag_window(secondary, surface, &None), DragPlan::Ignore);
    for scale in [0.0, -1.0, f32::NAN, f32::INFINITY] {
        let scaled = DragEvent { scale: single(scale), ..chrome };
        assert_eq!(drag_window(scaled, surface, &None), DragPlan::Ignore);
    }
}

#[test]
fn content_and_chrome_presses_reassert_focus_without_burning_stack_slots() {
    let mut shell = Shell::new();
    let surface = SurfaceId::new(44);
    shell.register(surface);
    shell.queue.push(server_decorated(surface));
    shell.queue.push(frame(surface, 2, 2));
    shell.update();
    shell.take_actions();
    let next_z_index = shell.stack.next;

    for path in [
        vec![None, None, Some(surface)],
        vec![None, Some(surface)],
        vec![None, None, None, Some(surface)],
    ] {
        let found = nearest_window(&path).expect("the path leads to the window");
        shell.press(path[found].expect("a window"));
        assert_eq!(shell.take_actions(), [focused(surface)]);
    }
    assert_eq!(shell.stack.next, next_z_index);
    assert_eq!(nearest_window(&vec![None, None]), None);
}

#[test]
fn resize_edges_apply_pointer_delta_to_the_requested_axes() {
    let size = (100.0, 80.0);
    let delta = (10.0, 5.0);
    let cases = [
        (WindowResizeEdge::Top, (100.0, 75.0)),
        (WindowResizeEdge::Bottom, (100.0, 85.0)),
        (WindowResizeEdge::Left, (90.0, 80.0)),
        (WindowResizeEdge::Right, (110.0, 80.0)),
        (WindowResizeEdge::TopLeft, (90.0, 75.0)),
        (WindowResizeEdge::BottomLeft, (90.0, 85.0)),
        (WindowResizeEdge::TopRight, (110.0, 75.0)),
        (WindowResizeEdge::BottomRight, (110.0, 85.0)),
    ];

    for (edges, expected) in cases {
        assert_eq!(resized(size, delta, edges), expected);
    }
}

#[test]
fn exhausted_window_stack_rebases_in_order_below_the_shell_band() {
    let mut order = [90, 10, 40];
    let mut stack = WindowStack { next: None };

    rebase_window_order(&mut stack, &mut order);

    assert_eq!(
        order,
        [
            WINDOW_Z_INDEX_MIN,
            WINDOW_Z_INDEX_MIN + 1,
            WINDOW_Z_INDEX_MIN + 2
        ],
    );
    assert!(order.iter().all(|z_index| *z_index < SHELL_Z_INDEX));
    assert_eq!(stack.allocate(), Some(WINDOW_Z_INDEX_MIN + 3));
}

#[test]
fn window_stack_exhausts_at_the_top_of_its_reserved_band() {
    let mut stack = WindowStack {
        next: Some(WINDOW_Z_INDEX_MAX),
    };

    assert_eq!(stack.allocate(), Some(WINDOW_Z_INDEX_MAX));
    assert_eq!(stack.allocate(), None);
}

#[test]
fn rebased_windows_keep_their_order() {
    let placed = |z_index| WindowPlacement {
        position: Vec2::zero(),
        z_index,
    };
    let indices = |placements: &Vec<WindowPlacement>| {
        placements.iter().map(|placement| placement.z_index).collect::<Vec<_>>()
    };
    let mut placements = vec![placed(90), placed(10), placed(40)];
    let mut stack = WindowStack { next: None };
    rebase_window_stack(&mut stack, &mut placements);
    assert_eq!(indices(&placements), [2, 0, 1]);
    assert_eq!(stack.next, Some(3));

    let mut placements = vec![placed(90), placed(10)];
    let mut stack = WindowStack { next: None };
    assert_eq!(next_window_z(&mut stack, &mut placements), 2);
    assert_eq!(indices(&placements), [1, 0]);
    assert_eq!(next_window_z(&mut stack, &mut placements), 3);
    assert_eq!(indices(&placements), [1, 0]);
}

#[test]
fn surface_actions_are_drained_once() {
    let mut actions = SurfaceActionQueue::default();
    let action = SurfaceAction::Close {
        surface: SurfaceId::new(7),
    };
    actions.push(action);

    assert_eq!(actions.take_surface_actions(), [action]);
    assert!(actions.take_surface_actions().is_empty());
}
