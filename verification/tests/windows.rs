use weldwm::number::Real32;
use weldwm::overlay::{
    drawing_order, topology_has_area, OutputTopologyOverlayState, OverlayStep,
};
use weldwm::root_commit::{imported_metadata, RootEvent, SingleWindow};
use weldwm::shm::{InvalidBufferScale, SurfaceBufferMetadata};
use weldwm::surface::{SurfaceContentView, SurfaceId, SurfaceLayerId};
use weldwm::surface_tree::{
    surface_offset, Assignment, CommittedNode, ImportedBuffer, RootGeometry, SurfaceOffset,
    SurfaceTreeState, TraversalContext, TreeNode,
};
use weldwm::text::parse_unsigned;
use weldwm::toplevel::{CommitStep, Registration, Toplevels};

fn single(value: f32) -> Real32 {
    Real32::new(value.to_bits())
}

fn view(width: f32) -> SurfaceContentView {
    SurfaceContentView {
        source_x: single(0.0),
        source_y: single(0.0),
        source_width: single(width),
        source_height: single(1.0),
        source_right: single(width),
        source_bottom: single(1.0),
        logical_width: single(width),
        logical_height: single(1.0),
    }
}

fn imported(pixels: [u8; 4]) -> Assignment {
    Assignment::NewBuffer(Some(ImportedBuffer {
        metadata: SurfaceBufferMetadata {
            width: 1,
            height: 1,
            scale: 1,
            normal_transform: true,
        },
        view: view(1.0),
        pixels: pixels.to_vec(),
        opaque: true,
    }))
}

fn retained(scale: i32, view: Option<SurfaceContentView>) -> Assignment {
    Assignment::Retained {
        scale,
        normal_transform: true,
        view,
    }
}

fn node(id: u64, parent: Option<u64>, x: i32, assignment: Assignment) -> CommittedNode {
    CommittedNode {
        node: TreeNode { id, parent, x, y: 0 },
        assignment,
        geometry: None,
    }
}

#[test]
fn trees_show_children_over_the_root() {
    let mut tree = SurfaceTreeState::new();
    let snapshot = tree.update(
        1,
        vec![
            node(3, Some(1), -4, imported([3; 4])),
            node(1, None, 0, imported([1; 4])),
            node(2, Some(1), 5, imported([2; 4])),
        ],
    );
    assert!(snapshot.client_mapped);
    let root = snapshot.root.expect("the root is shown");
    assert_eq!(snapshot.overlays.len(), 1);
    assert_eq!(snapshot.overlays[0].x, 5);
    assert_eq!(snapshot.buffers.len(), 3);
    let layers: Vec<SurfaceLayerId> = snapshot.buffers.iter().map(|update| update.layer).collect();
    assert!(layers.contains(&root.layer));
    assert!(layers.contains(&snapshot.overlays[0].layer));
    assert!(snapshot.buffers.iter().all(|update| update.pixels.is_some()));

    let snapshot = tree.update(
        1,
        vec![
            node(1, None, 0, retained(1, Some(view(1.0)))),
            node(2, Some(1), 6, retained(1, Some(view(1.0)))),
        ],
    );
    assert_eq!(snapshot.root.map(|root| root.layer), Some(root.layer));
    assert_eq!(snapshot.overlays[0].x, 6);
    assert_eq!(snapshot.buffers.len(), 2);
    assert!(snapshot.buffers.iter().all(|update| update.pixels.is_none()));
}

#[test]
fn hidden_parents_hide_their_children() {
    let mut tree = SurfaceTreeState::new();
    let snapshot = tree.update(
        1,
        vec![
            node(1, None, 0, imported([1; 4])),
            node(2, Some(1), 0, Assignment::Removed),
            node(3, Some(2), 0, imported([3; 4])),
        ],
    );
    assert!(snapshot.overlays.is_empty());
    assert!(tree.displayable(1));
}

#[test]
fn clients_stay_mapped_when_an_import_fails() {
    let mut tree = SurfaceTreeState::new();
    tree.update(1, vec![node(1, None, 0, imported([1; 4]))]);
    let snapshot = tree.update(1, vec![node(1, None, 0, Assignment::NewBuffer(None))]);
    assert!(snapshot.client_mapped);
    assert!(snapshot.root.is_none());
    assert!(tree.client_mapped(1));
    assert!(!tree.displayable(1));
    let snapshot = tree.update(1, vec![node(1, None, 0, Assignment::Removed)]);
    assert!(!snapshot.client_mapped);
    assert!(!tree.client_mapped(1));
}

#[test]
fn retained_buffers_follow_their_scale() {
    let mut tree = SurfaceTreeState::new();
    tree.update(1, vec![node(1, None, 0, imported([1; 4]))]);
    let metadata = tree.retained_metadata(1, 2, false).expect("a buffer is held");
    assert_eq!((metadata.scale, metadata.normal_transform), (2, false));
    assert!(tree.retained_metadata(1, 0, true).is_none());
    assert!(tree.retained_metadata(9, 1, true).is_none());
    let snapshot = tree.update(1, vec![node(1, None, 0, retained(1, Some(view(0.5))))]);
    assert_eq!(snapshot.root.expect("shown").view, view(0.5));
    let snapshot = tree.update(1, vec![node(1, None, 0, retained(1, None))]);
    assert_eq!(snapshot.root.expect("shown").view, view(0.5));
}

#[test]
fn removed_surfaces_take_their_branch_along() {
    let mut tree = SurfaceTreeState::new();
    tree.update(
        1,
        vec![
            node(1, None, 0, imported([1; 4])),
            node(2, Some(1), 0, imported([2; 4])),
            node(3, Some(2), 0, imported([3; 4])),
            node(4, Some(1), 7, imported([4; 4])),
        ],
    );
    let snapshot = tree.remove_surface(1, 2);
    assert_eq!(snapshot.overlays.len(), 1);
    assert_eq!(snapshot.overlays[0].x, 7);
    assert_eq!(snapshot.buffers.len(), 2);
}

#[test]
fn the_window_geometry_outlives_destroyed_children() {
    let geometry = |x| RootGeometry {
        x,
        y: 30,
        width: 760,
        height: 540,
    };
    let mut tree = SurfaceTreeState::new();
    assert_eq!(tree.root_geometry(), None);
    let mut root = node(1, None, 0, imported([1; 4]));
    root.geometry = Some(geometry(20));
    let mut child = node(2, Some(1), 0, imported([2; 4]));
    child.geometry = Some(geometry(99));
    let snapshot = tree.update(1, vec![root, child]);
    assert_eq!(snapshot.geometry, Some(geometry(20)));
    let snapshot = tree.remove_surface(1, 2);
    assert_eq!(snapshot.geometry, Some(geometry(20)));
    assert_eq!(tree.root_geometry(), Some(geometry(20)));
    let snapshot = tree.update(1, vec![node(1, None, 0, retained(1, Some(view(1.0))))]);
    assert_eq!(snapshot.geometry, None);
    assert_eq!(tree.root_geometry(), None);
}

#[test]
fn surfaces_stand_at_the_sum_of_their_offsets() {
    let at = |x, y| SurfaceOffset { x, y };
    assert_eq!(surface_offset(true, at(4, -5)), at(4, -5));
    assert_eq!(surface_offset(false, at(4, -5)), at(0, 0));
    let start = TraversalContext::default();
    let root = start.place(1, surface_offset(false, at(9, 9))).expect("placed");
    assert_eq!(root, TreeNode { id: 1, parent: None, x: 0, y: 0 });
    let below = start
        .enter(1, at(0, 0))
        .and_then(|context| context.enter(2, at(4, -5)))
        .expect("entered");
    assert_eq!(
        below.place(3, at(10, 1)),
        Some(TreeNode { id: 3, parent: Some(2), x: 14, y: -4 })
    );
    assert_eq!(below.place(3, at(i32::MAX, 0)), None);
    assert_eq!(below.enter(3, at(0, i32::MIN)), None);
}

#[test]
fn toplevels_are_registered_configured_and_updated() {
    let mut toplevels = Toplevels::new();
    let first = SurfaceId::new(1);
    assert_eq!(toplevels.new_toplevel(10), Registration::Registered(first));
    assert_eq!(
        toplevels.new_toplevel(10),
        Registration::Duplicate(SurfaceId::new(2))
    );
    assert_eq!(
        toplevels.new_toplevel(20),
        Registration::Registered(SurfaceId::new(3))
    );
    assert_eq!(toplevels.id_for_surface(20), Some(SurfaceId::new(3)));
    assert_eq!(toplevels.commit(10, true, true), CommitStep::Ignore);
    assert_eq!(toplevels.commit(11, false, true), CommitStep::Ignore);
    assert_eq!(toplevels.commit(10, false, false), CommitStep::Configure(first));
    assert!(!toplevels.presentation_requested());
    assert_eq!(toplevels.commit(10, false, true), CommitStep::Update(first));
    assert!(toplevels.presentation_requested());
    toplevels.frame_presented();
    assert!(!toplevels.presentation_requested());

    let change = toplevels
        .update_surface_tree(
            first,
            10,
            vec![
                node(10, None, 0, imported([1; 4])),
                node(11, Some(10), 0, imported([2; 4])),
            ],
        )
        .expect("the window is registered");
    assert!(!change.clear_focus);
    assert_eq!(change.snapshot.overlays.len(), 1);
    assert!(toplevels.answers_callbacks(first, 10));
    toplevels.set_focused(Some(first));

    let (id, snapshot) = toplevels.surface_destroyed(10, 11).expect("a window");
    assert_eq!(id, first);
    assert!(snapshot.overlays.is_empty());
    assert!(toplevels.presentation_requested());
    assert!(toplevels.surface_destroyed(12, 11).is_none());

    let change = toplevels
        .update_surface_tree(first, 10, vec![node(10, None, 0, Assignment::Removed)])
        .expect("the window is registered");
    assert!(change.clear_focus);
    assert!(!toplevels.answers_callbacks(first, 10));

    assert_eq!(toplevels.toplevel_destroyed(10), Some(first));
    assert_eq!(toplevels.focused(), None);
    assert!(!toplevels.is_registered(first));
    assert!(toplevels.is_registered(SurfaceId::new(3)));
    assert_eq!(toplevels.toplevel_destroyed(10), None);
    assert!(toplevels.update_surface_tree(first, 10, vec![]).is_none());
    assert_eq!(
        toplevels.new_toplevel(10),
        Registration::Registered(SurfaceId::new(4))
    );
}

#[test]
fn single_windows_replace_each_other() {
    let mut window = SingleWindow::new();
    let first = window.new_toplevel(7).expect("an id");
    assert_eq!(first.destroyed, None);
    let second = window.new_toplevel(8).expect("an id");
    assert_eq!(second.destroyed, Some(first.created));
    assert!(window.presentation_requested);
    window.frame_presented();
    assert!(!window.commit(7));
    assert!(!window.presentation_requested);
    assert!(window.commit(8));
    assert!(window.presentation_requested);
    assert!(window.can_close(second.created));
    assert!(!window.can_close(first.created));
    assert_eq!(window.toplevel_destroyed(7), None);
    assert_eq!(window.toplevel_destroyed(8), Some(second.created));
    assert!(window.active.is_none());
    assert!(window.handle_root_commit(imported([1; 4])).is_none());
}

#[test]
fn single_window_ids_run_out_without_starting_over() {
    let mut window = SingleWindow::new();
    let first = window.allocate_surface_id().expect("an id");
    let second = window.allocate_surface_id().expect("an id");
    assert!(first.raw() < second.raw());
    window.next_surface_id = Some(u64::MAX);
    let last = window.new_toplevel(3).expect("the last id");
    assert_eq!(last.created, SurfaceId::new(u64::MAX));
    window.frame_presented();
    assert!(window.new_toplevel(4).is_none());
    assert_eq!(window.allocate_surface_id(), None);
    assert_eq!(window.next_surface_id, None);
    assert!(window.can_close(last.created));
    assert!(!window.presentation_requested);
}

#[test]
fn single_windows_announce_what_changed() {
    let mut window = SingleWindow::new();
    let surface = window.new_toplevel(1).expect("an id").created;
    assert!(window.retained_metadata(1, true).is_none());
    assert!(window.handle_root_commit(retained(1, Some(view(1.0)))).is_none());
    match window.handle_root_commit(imported([5, 6, 7, 8])) {
        Some(RootEvent::Frame { surface: shown, bgra_pixels, .. }) => {
            assert_eq!(shown, surface);
            assert_eq!(bgra_pixels, [5, 6, 7, 8]);
        }
        other => panic!("unexpected {other:?}"),
    }
    assert!(window.handle_root_commit(retained(1, Some(view(1.0)))).is_none());
    match window.handle_root_commit(retained(2, Some(view(0.5)))) {
        Some(RootEvent::ViewChanged { view: shown, .. }) => assert_eq!(shown, view(0.5)),
        other => panic!("unexpected {other:?}"),
    }
    assert!(window.handle_root_commit(retained(2, Some(view(0.5)))).is_none());
    assert_eq!(window.retained_metadata(3, true).map(|metadata| metadata.scale), Some(3));
    assert!(window.handle_root_commit(retained(0, Some(view(0.25)))).is_none());
    assert!(window.handle_root_commit(retained(1, None)).is_none());
    assert!(matches!(
        window.handle_root_commit(Assignment::Removed),
        Some(RootEvent::Unmapped { surface: gone }) if gone == surface
    ));
    assert!(window.handle_root_commit(Assignment::NewBuffer(None)).is_none());
    assert_eq!(
        imported_metadata(2, 3, 4, true).map(|metadata| (metadata.width, metadata.scale)),
        Ok((2, 4))
    );
    assert_eq!(imported_metadata(2, 3, 0, true).err(), Some(InvalidBufferScale(0)));
}

#[test]
fn diagrams_follow_their_toggles() {
    let mut state = OutputTopologyOverlayState::default();
    assert_eq!(state.begin_update(0, false), OverlayStep::Keep);
    assert_eq!(state.begin_update(2, false), OverlayStep::Keep);
    assert_eq!(state.begin_update(1, false), OverlayStep::Rebuild);
    assert_eq!(state.begin_update(0, false), OverlayStep::Keep);
    state.rebuild_failed();
    assert_eq!(state.begin_update(0, false), OverlayStep::Rebuild);
    assert_eq!(state.begin_update(0, true), OverlayStep::Rebuild);
    assert_eq!(state.begin_update(3, false), OverlayStep::Clear);
    assert_eq!(state.begin_update(0, true), OverlayStep::Clear);
    assert!(topology_has_area(1, single(1.0), single(2.0)));
    assert!(!topology_has_area(0, single(1.0), single(2.0)));
    assert!(!topology_has_area(1, single(0.0), single(2.0)));
    assert!(!topology_has_area(1, single(1.0), single(-2.0)));
    assert_eq!(drawing_order(&vec![30, 10, 20, 10]), [1, 3, 2, 0]);
}

#[test]
fn numbers_are_read_from_their_range() {
    assert_eq!(parse_unsigned("ab12cd", 2, 4, 100), Some(12));
    assert_eq!(parse_unsigned("+7", 0, 2, 7), Some(7));
    assert_eq!(parse_unsigned("8", 0, 1, 7), None);
    assert_eq!(parse_unsigned("+", 0, 1, 7), None);
    assert_eq!(parse_unsigned("1 ", 0, 2, 7), None);
    assert_eq!(parse_unsigned("", 0, 0, 7), None);
    assert_eq!(
        parse_unsigned("00018446744073709551615", 0, 23, u64::MAX),
        Some(u64::MAX)
    );
}
