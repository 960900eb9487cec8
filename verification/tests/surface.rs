use weldwm::images::SurfaceImage;
use weldwm::nodes::{
    plan_surface_node, settle_children, surface_material, ChildNode, NodeKey, SurfaceNodePlan,
};
use weldwm::number::{Real32, Vec2};
use weldwm::scene::{validate_snapshot, SurfaceContent, SurfaceRole, SurfaceScene};
use weldwm::surface::{
    AppPopup, HostSurfaceEvent, HostSurfaceEventKind, MappedSurface, SurfaceBufferContent,
    SurfaceBufferUpdate, SurfaceContentView, SurfaceEventQueue, SurfaceId, SurfaceImageEncoding,
    SurfaceInputPlacement, SurfaceInputRect, SurfaceLayerId, SurfaceLayerPlacement, SurfaceNode,
    SurfaceRenderImage, SurfaceTreeSnapshot, SurfaceView, SurfaceWindowGeometry,
    WindowDecoration, WindowInteractionRequestKind,
};

fn single(value: f32) -> Real32 {
    Real32::new(value.to_bits())
}

fn pair(x: f32, y: f32) -> Vec2 {
    Vec2::new(single(x), single(y))
}

fn full_view(width: f32, height: f32) -> SurfaceContentView {
    SurfaceContentView {
        source_x: single(0.0),
        source_y: single(0.0),
        source_width: single(width),
        source_height: single(height),
        source_right: single(width),
        source_bottom: single(height),
        logical_width: single(width),
        logical_height: single(height),
    }
}

fn placement(layer: u64, position: Vec2) -> SurfaceLayerPlacement {
    SurfaceLayerPlacement {
        layer: SurfaceLayerId::new(layer),
        position,
        view: full_view(1.0, 1.0),
    }
}

fn buffer(layer: u64, pixel: Option<[u8; 4]>) -> SurfaceBufferUpdate {
    SurfaceBufferUpdate {
        layer: SurfaceLayerId::new(layer),
        width: 1,
        height: 1,
        extent: pair(1.0, 1.0),
        content: match pixel {
            Some(pixel) => SurfaceBufferContent::Pixels(pixel.to_vec()),
            None => SurfaceBufferContent::Retained,
        },
        opaque: true,
    }
}

fn root_snapshot(pixel: Option<[u8; 4]>) -> SurfaceTreeSnapshot {
    SurfaceTreeSnapshot {
        client_mapped: true,
        root: Some(placement(1, Vec2::zero())),
        window_geometry: Some(SurfaceWindowGeometry {
            origin: Vec2::zero(),
            view: full_view(1.0, 1.0),
        }),
        overlays: Vec::new(),
        inputs: Vec::new(),
        buffers: vec![buffer(1, pixel)],
    }
}

fn unmapping_snapshot() -> SurfaceTreeSnapshot {
    SurfaceTreeSnapshot {
        client_mapped: false,
        root: None,
        window_geometry: None,
        overlays: Vec::new(),
        inputs: Vec::new(),
        buffers: vec![buffer(1, None)],
    }
}

fn snapshot_event(surface: SurfaceId, snapshot: SurfaceTreeSnapshot) -> HostSurfaceEvent {
    HostSurfaceEvent {
        surface,
        kind: HostSurfaceEventKind::TreeSnapshot(snapshot),
    }
}

fn created(surface: SurfaceId) -> HostSurfaceEvent {
    HostSurfaceEvent {
        surface,
        kind: HostSurfaceEventKind::Created {
            decoration: WindowDecoration::ClientSide,
        },
    }
}

fn apply(scene: &mut SurfaceScene, events: Vec<HostSurfaceEvent>) {
    let mut queue = SurfaceEventQueue::default();
    for event in events {
        queue.push(event);
    }
    scene.apply_host_surface_events(&mut queue);
}

fn content(scene: &SurfaceScene, surface: SurfaceId) -> Option<&SurfaceContent> {
    scene.entity(surface)?.shown.as_ref().map(|shown| &shown.0)
}

fn mapped(scene: &SurfaceScene, surface: SurfaceId) -> Option<MappedSurface> {
    scene.entity(surface)?.shown.as_ref().map(|shown| shown.1)
}

fn root_image(scene: &SurfaceScene, surface: SurfaceId) -> u64 {
    content(scene, surface).expect("root image should exist").root.image
}

fn image(scene: &SurfaceScene, handle: u64) -> Option<&SurfaceImage> {
    scene.images().expect("images are available").get(handle)
}

#[test]
fn root_updates_reuse_the_bevy_image() {
    let mut scene = SurfaceScene::new(true);
    let surface = SurfaceId::new(7);
    apply(
        &mut scene,
        vec![
            created(surface),
            snapshot_event(surface, root_snapshot(Some([3, 2, 1, 255]))),
        ],
    );
    let first_handle = root_image(&scene, surface);

    apply(
        &mut scene,
        vec![snapshot_event(surface, root_snapshot(Some([7, 6, 5, 255])))],
    );
    assert_eq!(root_image(&scene, surface), first_handle);
    assert_eq!(image(&scene, first_handle).unwrap().pixels, [7, 6, 5, 255]);
}

#[test]
fn a_snapshot_waits_for_its_popup_role_without_becoming_a_window() {
    let mut scene = SurfaceScene::new(true);
    let surface = SurfaceId::new(8);
    apply(
        &mut scene,
        vec![snapshot_event(surface, root_snapshot(Some([3, 2, 1, 255])))],
    );
    assert!(scene.entity(surface).is_none());

    apply(
        &mut scene,
        vec![HostSurfaceEvent {
            surface,
            kind: HostSurfaceEventKind::PopupConfigured(AppPopup {
                owner: SurfaceId::new(1),
                position: pair(10.0, 20.0),
                stack_index: 1,
            }),
        }],
    );
    let entity = scene
        .entity(surface)
        .expect("the queued popup snapshot should map after role registration");
    match entity.role {
        SurfaceRole::Popup(popup) => assert_eq!(popup.owner, SurfaceId::new(1)),
        SurfaceRole::Window(_) => panic!("a popup is no window"),
    }
    assert_eq!(
        mapped(&scene, surface).expect("mapped").logical_size,
        pair(1.0, 1.0)
    );
}

#[test]
fn protocol_unmap_retains_copied_buffers_for_remapping() {
    let mut scene = SurfaceScene::new(true);
    let surface = SurfaceId::new(11);
    apply(
        &mut scene,
        vec![
            created(surface),
            snapshot_event(surface, root_snapshot(Some([3, 2, 1, 255]))),
        ],
    );
    let first_handle = root_image(&scene, surface);
    assert!(scene.has_surface_frame());

    apply(&mut scene, vec![snapshot_event(surface, unmapping_snapshot())]);
    assert!(!scene.has_surface_frame());
    assert!(image(&scene, first_handle).is_some());

    apply(&mut scene, vec![snapshot_event(surface, root_snapshot(None))]);
    assert_eq!(root_image(&scene, surface), first_handle);
}

fn only_snapshot(events: &mut SurfaceEventQueue) -> SurfaceTreeSnapshot {
    assert_eq!(events.len(), 1);
    match events.pop() {
        Some(HostSurfaceEvent {
            kind: HostSurfaceEventKind::TreeSnapshot(snapshot),
            ..
        }) => snapshot,
        _ => panic!("adjacent snapshots should merge"),
    }
}

#[test]
fn coalescing_preserves_unseen_pixels_and_drops_removed_layers() {
    let surface = SurfaceId::new(1);
    let mut events = SurfaceEventQueue::default();
    let mut first = root_snapshot(Some([1, 1, 1, 255]));
    first.buffers.push(buffer(2, Some([2, 2, 2, 255])));
    first.overlays.push(placement(2, Vec2::zero()));
    events.push(snapshot_event(surface, first));

    let mut next = root_snapshot(None);
    next.buffers.push(buffer(3, Some([3, 3, 3, 255])));
    next.overlays.push(placement(3, Vec2::zero()));
    events.push(snapshot_event(surface, next));

    let snapshot = only_snapshot(&mut events);
    assert_eq!(snapshot.buffers.len(), 2);
    assert_eq!(
        match &snapshot.buffers[0].content {
            SurfaceBufferContent::Pixels(pixels) => Some(pixels.as_slice()),
            _ => None,
        },
        Some([1, 1, 1, 255].as_slice())
    );
    assert_eq!(snapshot.buffers[1].layer, SurfaceLayerId::new(3));
}

#[test]
fn coalescing_preserves_an_unseen_imported_render_image() {
    let surface = SurfaceId::new(1);
    let image = SurfaceRenderImage {
        image: 5,
        encoding: SurfaceImageEncoding::EncodedPremultiplied,
        y_inverted: true,
    };
    let mut first = root_snapshot(None);
    first.buffers[0].content = SurfaceBufferContent::RenderImage(image);
    let mut events = SurfaceEventQueue::default();
    events.push(snapshot_event(surface, first));
    events.push(snapshot_event(surface, root_snapshot(None)));

    let snapshot = only_snapshot(&mut events);
    let SurfaceBufferContent::RenderImage(carried) = &snapshot.buffers[0].content else {
        panic!("the pending imported image should survive a retained update");
    };
    assert_eq!(carried, &image);
}

#[test]
fn only_neighbouring_snapshots_of_one_surface_merge() {
    let (first, second) = (SurfaceId::new(1), SurfaceId::new(2));
    let mut events = SurfaceEventQueue::default();
    events.push(snapshot_event(first, root_snapshot(None)));
    events.push(snapshot_event(second, root_snapshot(None)));
    events.push(snapshot_event(first, root_snapshot(None)));
    events.push(created(first));
    events.push(snapshot_event(first, root_snapshot(None)));
    assert_eq!(events.len(), 5);
    assert_eq!(events.pop().map(|event| event.surface), Some(first));
    assert_eq!(events.pop().map(|event| event.surface), Some(second));
}

#[test]
fn snapshot_validation_accepts_imported_images_but_checks_copied_pixel_lengths() {
    let mut imported = root_snapshot(None);
    imported.buffers[0].content = SurfaceBufferContent::RenderImage(SurfaceRenderImage {
        image: 0,
        encoding: SurfaceImageEncoding::EncodedOpaque,
        y_inverted: false,
    });
    assert!(validate_snapshot(&imported));

    let mut malformed_copy = root_snapshot(None);
    malformed_copy.buffers[0].content = SurfaceBufferContent::Pixels(vec![0; 3]);
    assert!(!validate_snapshot(&malformed_copy));
}

#[test]
fn snapshots_have_to_be_whole() {
    let mut doubled = root_snapshot(None);
    doubled.buffers.push(buffer(1, None));
    assert!(!validate_snapshot(&doubled));

    let mut empty = root_snapshot(None);
    empty.buffers[0].width = 0;
    assert!(!validate_snapshot(&empty));

    let mut without_geometry = root_snapshot(None);
    without_geometry.window_geometry = None;
    assert!(!validate_snapshot(&without_geometry));

    let mut unplaced = root_snapshot(None);
    unplaced.window_geometry = Some(SurfaceWindowGeometry {
        origin: pair(f32::NAN, 0.0),
        view: full_view(1.0, 1.0),
    });
    assert!(!validate_snapshot(&unplaced));

    let input = |layer, width| SurfaceInputPlacement {
        layer: SurfaceLayerId::new(layer),
        position: Vec2::zero(),
        regions: vec![SurfaceInputRect {
            position: Vec2::zero(),
            size: pair(width, 1.0),
        }],
    };
    let mut with_inputs = root_snapshot(None);
    with_inputs.inputs = vec![input(1, 1.0)];
    assert!(validate_snapshot(&with_inputs));
    with_inputs.inputs = vec![input(1, 0.0)];
    assert!(!validate_snapshot(&with_inputs));
    with_inputs.inputs = vec![input(2, 1.0)];
    assert!(!validate_snapshot(&with_inputs));
}

#[test]
fn views_beyond_their_buffer_are_not_shown() {
    let mut scene = SurfaceScene::new(true);
    let surface = SurfaceId::new(12);
    let mut snapshot = root_snapshot(Some([1, 1, 1, 255]));
    snapshot.root = Some(SurfaceLayerPlacement {
        view: full_view(2.0, 1.0),
        ..placement(1, Vec2::zero())
    });
    apply(
        &mut scene,
        vec![created(surface), snapshot_event(surface, snapshot)],
    );
    assert!(content(&scene, surface).is_none());
    assert!(!scene.has_surface_frame());
}

#[test]
fn input_only_advances_keep_latest_tree_pixels_queued() {
    let mut scene = SurfaceScene::new(true);
    let surface = SurfaceId::new(5);
    let mut queue = SurfaceEventQueue::default();
    queue.push(created(surface));
    queue.push(snapshot_event(surface, root_snapshot(Some([1, 2, 3, 255]))));
    queue.push(snapshot_event(surface, root_snapshot(Some([4, 5, 6, 255]))));
    assert_eq!(queue.len(), 2);
    assert!(mapped(&scene, surface).is_none());

    scene.apply_host_surface_events(&mut queue);
    let handle = root_image(&scene, surface);
    assert_eq!(image(&scene, handle).expect("root asset").pixels, [4, 5, 6, 255]);
}

fn overlay_plan(
    scene: &SurfaceScene,
    surface: SurfaceId,
    existing: &Vec<ChildNode>,
) -> (Vec<Option<u64>>, Vec<u64>) {
    let node = SurfaceNode {
        surface,
        view: SurfaceView::WindowGeometry,
    };
    match plan_surface_node(node, None, content(scene, surface), existing, &vec![]) {
        SurfaceNodePlan::Show { overlays, .. } => (overlays.kept, overlays.dropped),
        SurfaceNodePlan::Hide { .. } => panic!("the surface is shown"),
    }
}

#[test]
fn overlays_reuse_entities_and_release_removed_assets() {
    let mut scene = SurfaceScene::new(true);
    let surface = SurfaceId::new(29);
    let mut snapshot = root_snapshot(Some([1, 1, 1, 255]));
    snapshot.buffers.push(buffer(2, Some([2, 2, 2, 255])));
    snapshot.overlays.push(placement(2, pair(4.0, 5.0)));
    apply(
        &mut scene,
        vec![created(surface), snapshot_event(surface, snapshot)],
    );
    assert_eq!(
        overlay_plan(&scene, surface, &vec![]),
        (vec![None], vec![])
    );
    let first_overlay = 77;
    let existing = vec![ChildNode {
        key: NodeKey {
            layer: SurfaceLayerId::new(2),
            region: 0,
        },
        node: first_overlay,
    }];
    let overlay = content(&scene, surface).expect("shown").overlays[0];
    let overlay_image = surface_material(&overlay, overlay.view).image;

    let mut moved = root_snapshot(None);
    moved.buffers.push(buffer(2, None));
    moved.overlays.push(placement(2, pair(8.0, 9.0)));
    apply(&mut scene, vec![snapshot_event(surface, moved)]);
    assert_eq!(
        overlay_plan(&scene, surface, &existing),
        (vec![Some(first_overlay)], vec![])
    );
    assert_eq!(
        content(&scene, surface).expect("shown").overlays[0].position,
        pair(8.0, 9.0)
    );

    apply(&mut scene, vec![snapshot_event(surface, root_snapshot(None))]);
    assert_eq!(
        overlay_plan(&scene, surface, &existing),
        (vec![], vec![first_overlay])
    );
    assert!(image(&scene, overlay_image).is_none());
}

#[test]
fn destroyed_surfaces_release_their_images() {
    let mut scene = SurfaceScene::new(true);
    let (kept, gone) = (SurfaceId::new(1), SurfaceId::new(2));
    for surface in [kept, gone] {
        apply(
            &mut scene,
            vec![
                created(surface),
                snapshot_event(surface, root_snapshot(Some([9, 9, 9, 255]))),
            ],
        );
    }
    let kept_image = root_image(&scene, kept);
    let gone_image = root_image(&scene, gone);
    assert_ne!(kept_image, gone_image);
    apply(
        &mut scene,
        vec![HostSurfaceEvent {
            surface: gone,
            kind: HostSurfaceEventKind::Destroyed,
        }],
    );
    assert!(scene.entity(gone).is_none());
    assert!(image(&scene, gone_image).is_none());
    assert_eq!(root_image(&scene, kept), kept_image);
    assert!(image(&scene, kept_image).is_some());
}

#[test]
fn render_images_replace_copied_ones() {
    let mut scene = SurfaceScene::new(true);
    let surface = SurfaceId::new(3);
    apply(
        &mut scene,
        vec![
            created(surface),
            snapshot_event(surface, root_snapshot(Some([1, 2, 3, 255]))),
        ],
    );
    let copied = root_image(&scene, surface);
    let imported = scene.add_render_image(1, 1).expect("images are available");
    let mut snapshot = root_snapshot(None);
    snapshot.buffers[0].content = SurfaceBufferContent::RenderImage(SurfaceRenderImage {
        image: imported,
        encoding: SurfaceImageEncoding::EncodedOpaque,
        y_inverted: true,
    });
    apply(&mut scene, vec![snapshot_event(surface, snapshot)]);
    let root = content(&scene, surface).expect("shown").root;
    assert_eq!(root.image, imported);
    assert_eq!(root.encoding, SurfaceImageEncoding::EncodedOpaque);
    assert!(root.y_inverted);
    assert!(image(&scene, copied).is_none());
    assert!(SurfaceScene::new(false).add_render_image(1, 1).is_none());
}

#[test]
fn roles_and_requests_follow_their_events() {
    let mut scene = SurfaceScene::new(true);
    let surface = SurfaceId::new(4);
    assert!(scene.ensure_window_entity(surface, WindowDecoration::ClientSide));
    let popup = AppPopup {
        owner: SurfaceId::new(1),
        position: Vec2::zero(),
        stack_index: 0,
    };
    assert!(!scene.ensure_popup_entity(surface, popup));
    apply(
        &mut scene,
        vec![
            HostSurfaceEvent {
                surface,
                kind: HostSurfaceEventKind::DecorationChanged {
                    decoration: WindowDecoration::ServerSide,
                },
            },
            HostSurfaceEvent {
                surface,
                kind: HostSurfaceEventKind::WindowInteraction(WindowInteractionRequestKind::Move),
            },
        ],
    );
    assert!(matches!(
        scene.entity(surface).expect("a window").role,
        SurfaceRole::Window(WindowDecoration::ServerSide)
    ));
    let requests = scene.take_interaction_requests();
    assert_eq!(requests.len(), 1);
    assert_eq!(requests[0].surface, surface);
    assert_eq!(requests[0].kind, WindowInteractionRequestKind::Move);
    assert!(scene.take_interaction_requests().is_empty());
}

#[test]
fn input_rectangles_become_nodes() {
    let mut scene = SurfaceScene::new(true);
    let surface = SurfaceId::new(6);
    let rectangle = SurfaceInputRect {
        position: pair(0.25, 0.0),
        size: pair(0.5, 1.0),
    };
    let mut snapshot = root_snapshot(Some([1, 1, 1, 255]));
    snapshot.inputs.push(SurfaceInputPlacement {
        layer: SurfaceLayerId::new(1),
        position: pair(2.0, 3.0),
        regions: vec![rectangle, rectangle],
    });
    apply(
        &mut scene,
        vec![created(surface), snapshot_event(surface, snapshot)],
    );
    let node = SurfaceNode {
        surface,
        view: SurfaceView::FullSurface,
    };
    let key = |layer, region| NodeKey {
        layer: SurfaceLayerId::new(layer),
        region,
    };
    let existing = vec![
        ChildNode { key: key(1, 1), node: 11 },
        ChildNode { key: key(9, 0), node: 12 },
    ];
    let shown = content(&scene, surface);
    match plan_surface_node(node, Some(pair(1.0, 1.0)), shown, &vec![], &existing) {
        SurfaceNodePlan::Show {
            view,
            origin,
            layout_changed,
            input_parts,
            inputs,
            ..
        } => {
            assert_eq!(view, full_view(1.0, 1.0));
            assert_eq!(origin, Vec2::zero());
            assert!(!layout_changed);
            assert_eq!(input_parts.len(), 2);
            assert_eq!(input_parts[0].key, key(1, 0));
            assert_eq!(input_parts[1].target.local_origin, pair(0.25, 0.0));
            assert_eq!(input_parts[1].layer_position, pair(2.0, 3.0));
            assert_eq!(inputs.kept, [None, Some(11)]);
            assert_eq!(inputs.dropped, [12]);
        }
        SurfaceNodePlan::Hide { .. } => panic!("the surface is shown"),
    }
    match plan_surface_node(node, None, None, &existing, &existing) {
        SurfaceNodePlan::Hide {
            dropped_overlays,
            dropped_inputs,
        } => {
            assert_eq!(dropped_overlays, [11, 12]);
            assert_eq!(dropped_inputs, [11, 12]);
        }
        SurfaceNodePlan::Show { .. } => panic!("nothing is shown"),
    }
}

#[test]
fn children_lie_in_order_and_are_found_again() {
    let mut scene = SurfaceScene::new(true);
    let surface = SurfaceId::new(8);
    let mut snapshot = root_snapshot(Some([1, 1, 1, 255]));
    snapshot.buffers.push(buffer(2, Some([2, 2, 2, 255])));
    snapshot.buffers.push(buffer(3, Some([3, 3, 3, 255])));
    snapshot.overlays.push(placement(3, pair(4.0, 5.0)));
    snapshot.overlays.push(placement(2, pair(6.0, 7.0)));
    snapshot.inputs.push(SurfaceInputPlacement {
        layer: SurfaceLayerId::new(1),
        position: pair(0.0, 0.0),
        regions: vec![SurfaceInputRect {
            position: pair(0.0, 0.0),
            size: pair(1.0, 1.0),
        }],
    });
    apply(
        &mut scene,
        vec![created(surface), snapshot_event(surface, snapshot)],
    );
    let node = SurfaceNode {
        surface,
        view: SurfaceView::FullSurface,
    };
    let shown = content(&scene, surface).expect("shown");
    let children = match plan_surface_node(node, None, Some(shown), &vec![], &vec![]) {
        SurfaceNodePlan::Show {
            view,
            material,
            overlay_parts,
            overlays,
            input_parts,
            inputs,
            ..
        } => {
            assert_eq!(material, surface_material(&shown.root, view));
            assert_eq!(overlay_parts.len(), 2);
            for (part, overlay) in overlay_parts.iter().zip(&shown.overlays) {
                assert_eq!(part.key.layer, overlay.layer);
                assert_eq!(part.material, surface_material(overlay, overlay.view));
                assert_eq!(part.layer_position, overlay.position);
            }
            assert_eq!(overlay_parts[0].layer_position, pair(4.0, 5.0));
            assert_ne!(overlay_parts[0].material.image, overlay_parts[1].material.image);
            assert_eq!(overlays.kept, [None, None]);
            assert_eq!(inputs.kept, [None]);
            settle_children(&overlay_parts, &vec![31, 32], &input_parts, &vec![41])
        }
        SurfaceNodePlan::Hide { .. } => panic!("the surface is shown"),
    };
    assert_eq!(children.ordered, [31, 32, 41]);
    match plan_surface_node(node, None, Some(shown), &children.overlays, &children.inputs) {
        SurfaceNodePlan::Show {
            overlays, inputs, ..
        } => {
            assert_eq!(overlays.kept, [Some(31), Some(32)]);
            assert_eq!(inputs.kept, [Some(41)]);
            assert!(overlays.dropped.is_empty() && inputs.dropped.is_empty());
        }
        SurfaceNodePlan::Hide { .. } => panic!("the surface is shown"),
    }
}
