//! Window policy: focus, pointer interactions and presentation state.

use vstd::prelude::*;

use crate::layer::WINDOW_Z_INDEX_MAX;
use crate::number::{Real32, Vec2};
use crate::sort::sorted_keys;
#[allow(unused_imports)]
use crate::sort::ascending;
use crate::surface::{
    MappedSurface, SurfaceAction, SurfaceActionQueue, SurfaceId, WindowInteractionRequest,
    WindowInteractionRequestKind, WindowResizeEdge,
};
#[allow(unused_imports)]
use crate::window_stack::{index_above, next_z_rebases, raised_index, rebased_placements};
use crate::window_stack::{WindowPlacement, WindowStack, next_window_z};

verus! {

/// What a pointer interaction does to its window.
#[derive(Clone, Copy, Debug, PartialEq, Eq, Structural)]
pub enum WindowInteractionKind {
    Move,
    Resize(WindowResizeEdge),
}

/// A running pointer interaction.
#[derive(Clone, Copy, Debug, PartialEq, Eq, Structural)]
pub struct WindowInteraction {
    pub surface: SurfaceId,
    pub kind: WindowInteractionKind,
    /// Size that the pointer asks for.
    pub desired_size: Vec2,
    /// Whole size that the client was last asked for.
    pub requested_width: u32,
    pub requested_height: u32,
    /// Window position and size when the interaction began; their sum is the
    /// corner that a resize from the left or the top keeps in place.
    pub anchor_position: Vec2,
    pub anchor_size: Vec2,
    /// Revision after which a finished resize is over.
    pub end_after_revision: Option<u64>,
}

/// State of one application window.
#[derive(Clone, Copy, Debug, PartialEq, Eq, Structural)]
pub struct WindowSurface {
    pub surface: SurfaceId,
    pub mapped: Option<MappedSurface>,
    /// The mapped logical size, rounded to whole units.
    pub whole_width: u32,
    pub whole_height: u32,
    /// Number of accepted snapshots.
    pub revision: u64,
    pub placement: WindowPlacement,
    /// Whether the client draws the window frame.
    pub client_owned: bool,
}

/// A presented window.
#[derive(Clone, Copy, Debug, PartialEq, Eq, Structural)]
pub struct WindowRoot {
    pub surface: SurfaceId,
    pub has_shadow: bool,
}

/// State of `surface`; a later entry replaces an earlier one.
pub open spec fn state_of(states: Seq<WindowSurface>, surface: SurfaceId) -> Option<WindowSurface>
    decreases states.len(),
{
    if states.len() == 0 {
        None
    } else if states.last().surface == surface {
        Some(states.last())
    } else {
        state_of(states.drop_last(), surface)
    }
}

/// Whether `surface` is mapped.
pub open spec fn is_mapped(states: Seq<WindowSurface>, surface: SurfaceId) -> bool {
    state_of(states, surface) matches Some(state) && state.mapped is Some
}

/// Whether `surface` is mapped with a frame drawn by its client.
pub open spec fn is_interactive(states: Seq<WindowSurface>, surface: SurfaceId) -> bool {
    state_of(states, surface) matches Some(state) && state.mapped is Some && state.client_owned
}

/// Whether some window presents `surface`.
pub open spec fn is_presented(windows: Seq<WindowRoot>, surface: SurfaceId) -> bool {
    exists|i: int| 0 <= i < windows.len() && (#[trigger] windows[i]).surface == surface
}

/// The interaction that starts on a window in `state`.
pub open spec fn started(state: WindowSurface, kind: WindowInteractionKind) -> WindowInteraction {
    WindowInteraction {
        surface: state.surface,
        kind,
        desired_size: (state.mapped->0).logical_size,
        requested_width: state.whole_width,
        requested_height: state.whole_height,
        anchor_position: state.placement.position,
        anchor_size: (state.mapped->0).logical_size,
        end_after_revision: None,
    }
}

/// Whether the window keeps its far corner while it is resized.
pub open spec fn anchored(kind: WindowInteractionKind) -> bool {
    kind matches WindowInteractionKind::Resize(edges) && (edges.left() || edges.top())
}

/// An interaction that its client ends: an anchored resize waits for the next
/// snapshot, any other is over.
pub open spec fn finished(active: WindowInteraction, revision: u64) -> Option<WindowInteraction> {
    if anchored(active.kind) {
        Some(
            WindowInteraction {
                end_after_revision: match active.end_after_revision {
                    Some(earlier) => Some(earlier),
                    None => Some(revision),
                },
                ..active
            },
        )
    } else {
        None
    }
}

/// The interaction after one client request.
pub open spec fn after_request(
    active: Option<WindowInteraction>,
    states: Seq<WindowSurface>,
    windows: Seq<WindowRoot>,
    request: WindowInteractionRequest,
) -> Option<WindowInteraction> {
    let surface = request.surface;
    let starts = is_interactive(states, surface) && is_presented(windows, surface);
    match request.kind {
        WindowInteractionRequestKind::Move => if starts {
            Some(started(state_of(states, surface)->0, WindowInteractionKind::Move))
        } else {
            active
        },
        WindowInteractionRequestKind::Resize { edges } => if starts {
            Some(started(state_of(states, surface)->0, WindowInteractionKind::Resize(edges)))
        } else {
            active
        },
        WindowInteractionRequestKind::End => match active {
            Some(running) => if running.surface == surface {
                finished(
                    running,
                    match state_of(states, surface) {
                        Some(state) => state.revision,
                        None => 0,
                    },
                )
            } else {
                active
            },
            None => None,
        },
    }
}

/// The interaction after several client requests, in order.
pub open spec fn after_requests(
    active: Option<WindowInteraction>,
    states: Seq<WindowSurface>,
    windows: Seq<WindowRoot>,
    requests: Seq<WindowInteractionRequest>,
) -> Option<WindowInteraction>
    decreases requests.len(),
{
    if requests.len() == 0 {
        active
    } else {
        after_request(
            after_requests(active, states, windows, requests.drop_last()),
            states,
            windows,
            requests.last(),
        )
    }
}

/// The interaction, if its window can still be interacted with.
pub open spec fn still_interactive(
    active: Option<WindowInteraction>,
    states: Seq<WindowSurface>,
) -> Option<WindowInteraction> {
    match active {
        Some(running) => if is_interactive(states, running.surface) {
            active
        } else {
            None
        },
        None => None,
    }
}

/// Whether `active` resizes `surface`.
pub open spec fn resizes(active: Option<WindowInteraction>, surface: SurfaceId) -> bool {
    active matches Some(running) && running.surface == surface && running.kind is Resize
}

/// Whether a finished resize has seen the snapshot that it waited for.
pub open spec fn resize_is_over(
    active: Option<WindowInteraction>,
    states: Seq<WindowSurface>,
    windows: Seq<WindowRoot>,
) -> bool {
    active matches Some(running) && {
        &&& running.kind is Resize
        &&& is_presented(windows, running.surface)
        &&& is_mapped(states, running.surface)
        &&& running.end_after_revision matches Some(revision) && (state_of(
            states,
            running.surface,
        )->0).revision > revision
    }
}

/// Where one coordinate of a window comes from.
#[derive(Clone, Copy, Debug, PartialEq, Eq, Structural)]
pub enum AxisPosition {
    /// The coordinate of the window's placement.
    Placed(Real32),
    /// `anchor_position + anchor_size - size`: the far corner stays in place.
    Anchored { anchor_position: Real32, anchor_size: Real32, size: Real32 },
}

/// Change to the shadow of a window.
#[derive(Clone, Copy, Debug, PartialEq, Eq, Structural)]
pub enum ShadowChange {
    Keep,
    Remove,
    Insert,
}

/// Position of a window's geometry and the offset of its full surface.
#[derive(Clone, Copy, Debug, PartialEq, Eq, Structural)]
pub struct WindowPosition {
    pub x: AxisPosition,
    pub y: AxisPosition,
    pub visual_offset: Vec2,
    /// Whether the window's placement is replaced by `x` and `y`.
    pub replaces_placement: bool,
}

/// How one window is presented.
#[derive(Clone, Copy, Debug, PartialEq, Eq, Structural)]
pub struct WindowPlan {
    pub displayed: bool,
    /// Stacking index, where the window's surface is known.
    pub z_index: Option<i32>,
    /// Position, where the window's surface is known.
    pub position: Option<WindowPosition>,
    pub shadow: ShadowChange,
    /// Whether the window's frame is drawn as focused.
    pub focused: bool,
}

/// The shadow change for a window whose client owns the frame: only surfaces
/// without overflow of their own get a shadow.
pub open spec fn shadow_change(state: WindowSurface, has_shadow: bool) -> ShadowChange {
    if !state.client_owned || state.mapped is None {
        ShadowChange::Keep
    } else if (state.mapped->0).overflows() && has_shadow {
        ShadowChange::Remove
    } else if !(state.mapped->0).overflows() && !has_shadow {
        ShadowChange::Insert
    } else {
        ShadowChange::Keep
    }
}

/// The position of a window in `state` during `active`.
pub open spec fn window_position(
    state: WindowSurface,
    active: Option<WindowInteraction>,
) -> WindowPosition {
    let resizing = state.mapped is Some && resizes(active, state.surface);
    let edges = (active->0).kind->Resize_0;
    WindowPosition {
        x: if resizing && edges.left() {
            AxisPosition::Anchored {
                anchor_position: (active->0).anchor_position.x,
                anchor_size: (active->0).anchor_size.x,
                size: (state.mapped->0).logical_size.x,
            }
        } else {
            AxisPosition::Placed(state.placement.position.x)
        },
        y: if resizing && edges.top() {
            AxisPosition::Anchored {
                anchor_position: (active->0).anchor_position.y,
                anchor_size: (active->0).anchor_size.y,
                size: (state.mapped->0).logical_size.y,
            }
        } else {
            AxisPosition::Placed(state.placement.position.y)
        },
        visual_offset: if state.client_owned && state.mapped is Some {
            (state.mapped->0).visual_offset
        } else {
            Vec2::origin()
        },
        replaces_placement: resizing,
    }
}

/// How one window is presented.
pub open spec fn window_plan(
    window: WindowRoot,
    states: Seq<WindowSurface>,
    active: Option<WindowInteraction>,
    focus: Option<SurfaceId>,
) -> WindowPlan {
    let focused = focus == Some(window.surface);
    match state_of(states, window.surface) {
        Some(state) => WindowPlan {
            displayed: state.mapped is Some,
            z_index: Some(state.placement.z_index),
            position: Some(window_position(state, active)),
            shadow: shadow_change(state, window.has_shadow),
            focused,
        },
        None => WindowPlan {
            displayed: false,
            z_index: None,
            position: None,
            shadow: ShadowChange::Keep,
            focused,
        },
    }
}

/// The topmost mapped window; of several with the highest index, the last.
pub open spec fn topmost(windows: Seq<WindowRoot>, states: Seq<WindowSurface>) -> Option<SurfaceId>
    decreases windows.len(),
{
    if windows.len() == 0 {
        None
    } else {
        let lower = topmost(windows.drop_last(), states);
        let last = windows.last().surface;
        if !is_mapped(states, last) {
            lower
        } else if lower matches Some(surface) && (state_of(states, surface)->0).placement.z_index
            > (state_of(states, last)->0).placement.z_index {
            lower
        } else {
            Some(last)
        }
    }
}

/// Whether the focus has to move.
pub open spec fn focus_moves(
    focus: Option<SurfaceId>,
    windows: Seq<WindowRoot>,
    states: Seq<WindowSurface>,
) -> bool {
    let next = topmost(windows, states);
    let lost = focus matches Some(surface) && !is_mapped(states, surface);
    (lost || (focus is None && next is Some)) && focus != next
}

fn find_state(states: &Vec<WindowSurface>, surface: SurfaceId) -> (state: Option<WindowSurface>)
    ensures
        state == state_of(states@, surface),
        state matches Some(found) ==> found.surface == surface,
{
    let mut state: Option<WindowSurface> = None;
    let mut i: usize = 0;
    while i < states.len()
        invariant
            i <= states@.len(),
            state == state_of(states@.take(i as int), surface),
            state matches Some(found) ==> found.surface == surface,
        decreases states@.len() - i,
    {
        assert(states@.take(i + 1).drop_last() =~= states@.take(i as int));
        if states[i].surface == surface {
            state = Some(states[i]);
        }
        i = i + 1;
    }
    assert(states@.take(i as int) =~= states@);
    state
}

fn presents(windows: &Vec<WindowRoot>, surface: SurfaceId) -> (presented: bool)
    ensures
        presented == is_presented(windows@, surface),
{
    let mut i: usize = 0;
    while i < windows.len()
        invariant
            i <= windows@.len(),
            forall|k: int| 0 <= k < i ==> (#[trigger] windows@[k]).surface != surface,
        decreases windows@.len() - i,
    {
        if windows[i].surface == surface {
            return true;
        }
        i = i + 1;
    }
    false
}

/// Ends an interaction at the client's request.
pub fn finish_window_interaction(
    interaction: &mut Option<WindowInteraction>,
    revision: u64,
)
    ensures
        *final(interaction) == match *old(interaction) {
            Some(active) => finished(active, revision),
            None => None,
        },
{
    match *interaction {
        Some(active) => {
            let waits: bool = match active.kind {
                WindowInteractionKind::Resize(edges) => edges.has_left() || edges.has_top(),
                WindowInteractionKind::Move => false,
            };
            *interaction = if waits {
                let mut active: WindowInteraction = active;
                if active.end_after_revision.is_none() {
                    active.end_after_revision = Some(revision);
                }
                Some(active)
            } else {
                None
            };
        },
        None => {},
    }
}

/// Applies one client request.
pub fn apply_interaction_request(
    interaction: &mut Option<WindowInteraction>,
    states: &Vec<WindowSurface>,
    windows: &Vec<WindowRoot>,
    request: WindowInteractionRequest,
)
    ensures
        *final(interaction) == after_request(*old(interaction), states@, windows@, request),
{
    let kind: WindowInteractionKind = match request.kind {
        WindowInteractionRequestKind::Move => WindowInteractionKind::Move,
        WindowInteractionRequestKind::Resize { edges } => WindowInteractionKind::Resize(edges),
        WindowInteractionRequestKind::End => {
            match *interaction {
                Some(active) => {
                    if active.surface == request.surface {
                        let revision: u64 = match find_state(states, request.surface) {
                            Some(state) => state.revision,
                            None => 0,
                        };
                        finish_window_interaction(interaction, revision);
                    }
                },
                None => {},
            }
            return;
        },
    };
    match find_state(states, request.surface) {
        Some(state) => match state.mapped {
            Some(mapped) => {
                if state.client_owned && presents(windows, request.surface) {
                    *interaction = Some(
                        WindowInteraction {
                            surface: request.surface,
                            kind,
                            desired_size: mapped.logical_size,
                            requested_width: state.whole_width,
                            requested_height: state.whole_height,
                            anchor_position: state.placement.position,
                            anchor_size: mapped.logical_size,
                            end_after_revision: None,
                        },
                    );
                }
            },
            None => {},
        },
        None => {},
    }
}

fn plan_position(
    state: &WindowSurface,
    active: Option<WindowInteraction>,
) -> (position: WindowPosition)
    ensures
        position == window_position(*state, active),
{
    let mut position = WindowPosition {
        x: AxisPosition::Placed(state.placement.position.x),
        y: AxisPosition::Placed(state.placement.position.y),
        visual_offset: Vec2::zero(),
        replaces_placement: false,
    };
    match state.mapped {
        Some(mapped) => {
            if state.client_owned {
                position.visual_offset = mapped.visual_offset;
            }
            match active {
                Some(running) => {
                    if running.surface == state.surface {
                        match running.kind {
                            WindowInteractionKind::Resize(edges) => {
                                position.replaces_placement = true;
                                if edges.has_left() {
                                    position.x = AxisPosition::Anchored {
                                        anchor_position: running.anchor_position.x,
                                        anchor_size: running.anchor_size.x,
                                        size: mapped.logical_size.x,
                                    };
                                }
                                if edges.has_top() {
                                    position.y = AxisPosition::Anchored {
                                        anchor_position: running.anchor_position.y,
                                        anchor_size: running.anchor_size.y,
                                        size: mapped.logical_size.y,
                                    };
                                }
                            },
                            WindowInteractionKind::Move => {},
                        }
                    }
                },
                None => {},
            }
        },
        None => {},
    }
    position
}

fn plan_window(
    window: WindowRoot,
    states: &Vec<WindowSurface>,
    active: Option<WindowInteraction>,
    focus: Option<SurfaceId>,
) -> (plan: WindowPlan)
    ensures
        plan == window_plan(window, states@, active, focus),
{
    let focused: bool = match focus {
        Some(surface) => surface == window.surface,
        None => false,
    };
    match find_state(states, window.surface) {
        Some(state) => {
            let shadow: ShadowChange = match state.mapped {
                Some(mapped) => if !state.client_owned {
                    ShadowChange::Keep
                } else {
                    let overflows: bool = mapped.has_visual_overflow();
                    if overflows && window.has_shadow {
                        ShadowChange::Remove
                    } else if !overflows && !window.has_shadow {
                        ShadowChange::Insert
                    } else {
                        ShadowChange::Keep
                    }
                },
                None => ShadowChange::Keep,
            };
            WindowPlan {
                displayed: state.mapped.is_some(),
                z_index: Some(state.placement.z_index),
                position: Some(plan_position(&state, active)),
                shadow,
                focused,
            }
        },
        None => WindowPlan {
            displayed: false,
            z_index: None,
            position: None,
            shadow: ShadowChange::Keep,
            focused,
        },
    }
}

/// The topmost mapped window and its index.
fn find_topmost(windows: &Vec<WindowRoot>, states: &Vec<WindowSurface>) -> (top: Option<SurfaceId>)
    ensures
        top == topmost(windows@, states@),
{
    let mut top: Option<SurfaceId> = None;
    let mut top_index: i32 = 0;
    let mut i: usize = 0;
    while i < windows.len()
        invariant
            i <= windows@.len(),
            top == topmost(windows@.take(i as int), states@),
            top matches Some(surface) ==> state_of(states@, surface) is Some && (state_of(
                states@,
                surface,
            )->0).placement.z_index == top_index,
        decreases windows@.len() - i,
    {
        assert(windows@.take(i + 1).drop_last() =~= windows@.take(i as int));
        let surface: SurfaceId = windows[i].surface;
        match find_state(states, surface) {
            Some(state) => {
                if state.mapped.is_some() && !(top.is_some() && top_index
                    > state.placement.z_index) {
                    top = Some(surface);
                    top_index = state.placement.z_index;
                }
            },
            None => {},
        }
        i = i + 1;
    }
    assert(windows@.take(i as int) =~= windows@);
    top
}

/// Brings presented windows in line with their surfaces: applies client
/// requests, ends interactions that are over, and moves the focus off
/// unmapped windows.
pub fn sync_default_window_state(
    states: &Vec<WindowSurface>,
    windows: &Vec<WindowRoot>,
    requests: &Vec<WindowInteractionRequest>,
    interaction: &mut Option<WindowInteraction>,
    focus: &mut Option<SurfaceId>,
    actions: &mut SurfaceActionQueue,
) -> (plans: Vec<WindowPlan>)
    ensures
        ({
            let active = still_interactive(
                after_requests(*old(interaction), states@, windows@, requests@),
                states@,
            );
            let next = topmost(windows@, states@);
            let moves = focus_moves(*old(focus), windows@, states@);
            &&& *final(interaction) == if resize_is_over(active, states@, windows@) {
                None
            } else {
                active
            }
            &&& *final(focus) == if moves {
                next
            } else {
                *old(focus)
            }
            &&& final(actions)@ == if moves {
                old(actions)@.push(SurfaceAction::Focus { surface: next })
            } else {
                old(actions)@
            }
            &&& plans@.len() == windows@.len()
            &&& forall|i: int|
                0 <= i < windows@.len() ==> #[trigger] plans@[i] == window_plan(
                    windows@[i],
                    states@,
                    active,
                    *final(focus),
                )
        }),
{
    let ghost given = *interaction;
    let mut r: usize = 0;
    while r < requests.len()
        invariant
            r <= requests@.len(),
            *interaction == after_requests(given, states@, windows@, requests@.take(r as int)),
        decreases requests@.len() - r,
    {
        assert(requests@.take(r + 1).drop_last() =~= requests@.take(r as int));
        apply_interaction_request(interaction, states, windows, requests[r]);
        r = r + 1;
    }
    assert(requests@.take(r as int) =~= requests@);
    match *interaction {
        Some(running) => {
            let interactive: bool = match find_state(states, running.surface) {
                Some(state) => state.mapped.is_some() && state.client_owned,
                None => false,
            };
            if !interactive {
                *interaction = None;
            }
        },
        None => {},
    }
    let active: Option<WindowInteraction> = *interaction;
    match active {
        Some(running) => {
            let over: bool = match running.end_after_revision {
                Some(revision) => match find_state(states, running.surface) {
                    Some(state) => matches!(running.kind, WindowInteractionKind::Resize(_))
                        && state.mapped.is_some() && state.revision > revision && presents(
                        windows,
                        running.surface,
                    ),
                    None => false,
                },
                None => false,
            };
            if over {
                *interaction = None;
            }
        },
        None => {},
    }
    let next = find_topmost(windows, states);
    let lost: bool = match *focus {
        Some(surface) => match find_state(states, surface) {
            Some(state) => state.mapped.is_none(),
            None => true,
        },
        None => false,
    };
    let unfocused: bool = focus.is_none() && next.is_some();
    let same: bool = match (*focus, next) {
        (Some(current), Some(wanted)) => current == wanted,
        (None, None) => true,
        _ => false,
    };
    if (lost || unfocused) && !same {
        *focus = next;
        actions.push(SurfaceAction::Focus { surface: next });
    }
    let mut plans: Vec<WindowPlan> = Vec::new();
    let mut i: usize = 0;
    while i < windows.len()
        invariant
            i <= windows@.len(),
            plans@.len() == i,
            forall|k: int|
                0 <= k < i ==> #[trigger] plans@[k] == window_plan(
                    windows@[k],
                    states@,
                    active,
                    *focus,
                ),
        decreases windows@.len() - i,
    {
        plans.push(plan_window(windows[i], states, active, *focus));
        i = i + 1;
    }
    plans
}

/// A window that got its place in the stack.
#[derive(Clone, Copy, Debug, PartialEq, Eq, Structural)]
pub struct PlacedWindow {
    pub surface: SurfaceId,
    pub z_index: i32,
}

/// The index of the window placed after `count` others.
pub open spec fn nth_index(next: Option<i32>, count: int) -> i32 {
    match next {
        Some(next) => if next + count <= WINDOW_Z_INDEX_MAX {
            (next + count) as i32
        } else {
            WINDOW_Z_INDEX_MAX
        },
        None => WINDOW_Z_INDEX_MAX,
    }
}

/// The next free index after `count` windows have been placed.
pub open spec fn next_after(next: Option<i32>, count: int) -> Option<i32> {
    match next {
        Some(next) => if next + count <= WINDOW_Z_INDEX_MAX {
            Some((next + count) as i32)
        } else {
            None
        },
        None => None,
    }
}

/// Surfaces of several placed windows.
pub open spec fn placed_surfaces(placed: Seq<PlacedWindow>) -> Seq<u64> {
    Seq::new(placed.len(), |i: int| placed[i].surface.0)
}

/// The focus requests for several placed windows, in order.
pub open spec fn focus_actions(placed: Seq<PlacedWindow>) -> Seq<SurfaceAction> {
    Seq::new(placed.len(), |i: int| SurfaceAction::Focus { surface: Some(placed[i].surface) })
}

/// Places windows that have no place yet, in ascending order of their
/// surfaces, and focuses each in turn.
pub fn initialize_window_placements(
    unplaced: &Vec<u64>,
    stack: &mut WindowStack,
    focus: &mut Option<SurfaceId>,
    actions: &mut SurfaceActionQueue,
) -> (placed: Vec<PlacedWindow>)
    requires
        old(stack).wf(),
    ensures
        ascending(placed_surfaces(placed@)),
        placed_surfaces(placed@).to_multiset() == unplaced@.to_multiset(),
        forall|i: int|
            0 <= i < placed@.len() ==> (#[trigger] placed@[i]).z_index == nth_index(
                old(stack).next,
                i,
            ),
        final(stack).next == next_after(old(stack).next, unplaced@.len() as int),
        final(stack).wf(),
        *final(focus) == if unplaced@.len() == 0 {
            *old(focus)
        } else {
            Some(placed@.last().surface)
        },
        final(actions)@ == old(actions)@ + focus_actions(placed@),
        placed@.len() == unplaced@.len(),
{
    let order = sorted_keys(unplaced);
    let mut placed: Vec<PlacedWindow> = Vec::new();
    let ghost first = stack.next;
    let ghost queued = actions@;
    let ghost focused = *focus;
    let mut i: usize = 0;
    while i < order.len()
        invariant
            i <= order@.len(),
            order@.len() == unplaced@.len(),
            first matches Some(next) ==> next <= WINDOW_Z_INDEX_MAX,
            stack.wf(),
            stack.next == next_after(first, i as int),
            placed@.len() == i,
            forall|k: int|
                0 <= k < i ==> (#[trigger] placed@[k]).z_index == nth_index(first, k)
                    && placed@[k].surface.0 == order@[k],
            *focus == if i == 0 {
                focused
            } else {
                Some(placed@.last().surface)
            },
            actions@ =~= queued + focus_actions(placed@),
        decreases order@.len() - i,
    {
        let surface = SurfaceId::new(order[i]);
        let z_index: i32 = match stack.allocate() {
            Some(z_index) => z_index,
            None => WINDOW_Z_INDEX_MAX,
        };
        placed.push(PlacedWindow { surface, z_index });
        *focus = Some(surface);
        actions.push(SurfaceAction::Focus { surface: Some(surface) });
        i = i + 1;
    }
    assert(placed_surfaces(placed@) =~= order@);
    placed
}

/// The nearest window on the way from a picked node to the root, if any.
pub fn nearest_window(path: &Vec<Option<SurfaceId>>) -> (found: Option<usize>)
    ensures
        match found {
            Some(i) => i < path@.len() && path@[i as int] is Some && forall|k: int|
                0 <= k < i ==> #[trigger] path@[k] is None,
            None => forall|k: int| 0 <= k < path@.len() ==> #[trigger] path@[k] is None,
        },
{
    let mut i: usize = 0;
    while i < path.len()
        invariant
            i <= path@.len(),
            forall|k: int| 0 <= k < i ==> #[trigger] path@[k] is None,
        decreases path@.len() - i,
    {
        if path[i].is_some() {
            return Some(i);
        }
        i = i + 1;
    }
    None
}

/// The highest index in use.
pub open spec fn top_index(placements: Seq<WindowPlacement>) -> Option<i32>
    decreases placements.len(),
{
    if placements.len() == 0 {
        None
    } else {
        match top_index(placements.drop_last()) {
            Some(top) => if placements.last().z_index > top {
                Some(placements.last().z_index)
            } else {
                Some(top)
            },
            None => Some(placements.last().z_index),
        }
    }
}

fn find_top_index(placements: &Vec<WindowPlacement>) -> (top: Option<i32>)
    ensures
        top == top_index(placements@),
{
    let mut top: Option<i32> = None;
    let mut i: usize = 0;
    while i < placements.len()
        invariant
            i <= placements@.len(),
            top == top_index(placements@.take(i as int)),
        decreases placements@.len() - i,
    {
        assert(placements@.take(i + 1).drop_last() =~= placements@.take(i as int));
        let z_index: i32 = placements[i].z_index;
        top = match top {
            Some(highest) => if z_index > highest {
                Some(z_index)
            } else {
                Some(highest)
            },
            None => Some(z_index),
        };
        i = i + 1;
    }
    assert(placements@.take(i as int) =~= placements@);
    top
}

/// The index of the window at `source`, if it is placed.
pub open spec fn index_at(placements: Seq<WindowPlacement>, source: Option<usize>) -> Option<i32> {
    match source {
        Some(i) => Some(placements[i as int].z_index),
        None => None,
    }
}

/// The placements after the window at `source` got `z_index`.
pub open spec fn raised_placements(
    placements: Seq<WindowPlacement>,
    source: Option<usize>,
    z_index: i32,
) -> Seq<WindowPlacement> {
    match source {
        Some(i) => placements.update(
            i as int,
            WindowPlacement { position: placements[i as int].position, z_index },
        ),
        None => placements,
    }
}

/// Focuses a pressed window and raises it unless it is on top already.
///
/// `source` is the window's entry in `placements`. The result is the window's
/// new index, if it was raised.
pub fn focus_window(
    surface: SurfaceId,
    source: Option<usize>,
    stack: &mut WindowStack,
    placements: &mut Vec<WindowPlacement>,
    focus: &mut Option<SurfaceId>,
    actions: &mut SurfaceActionQueue,
) -> (raised: Option<i32>)
    requires
        source matches Some(i) ==> i < old(placements)@.len(),
    ensures
        *final(focus) == Some(surface),
        final(actions)@ == old(actions)@.push(SurfaceAction::Focus { surface: Some(surface) }),
        raised is Some <==> index_at(old(placements)@, source) != top_index(old(placements)@),
        match raised {
            Some(z_index) => {
                &&& z_index == raised_index(*old(stack), old(placements)@.len() as int)
                &&& final(stack).next == index_above(z_index)
                &&& final(placements)@ == raised_placements(
                    if next_z_rebases(*old(stack)) {
                        rebased_placements(old(placements)@)
                    } else {
                        old(placements)@
                    },
                    source,
                    z_index,
                )
            },
            None => final(placements)@ == old(placements)@ && *final(stack) == *old(stack),
        },
        old(stack).wf() ==> final(stack).wf(),
{
    let top = find_top_index(placements);
    let current: Option<i32> = match source {
        Some(i) => Some(placements[i].z_index),
        None => None,
    };
    let on_top: bool = match (current, top) {
        (Some(current), Some(top)) => current == top,
        (None, None) => true,
        _ => false,
    };
    let raised: Option<i32> = if on_top {
        None
    } else {
        let z_index: i32 = next_window_z(stack, placements);
        match source {
            Some(i) => {
                let position = placements[i].position;
                placements.set(i, WindowPlacement { position, z_index });
            },
            None => {},
        }
        Some(z_index)
    };
    *focus = Some(surface);
    actions.push(SurfaceAction::Focus { surface: Some(surface) });
    raised
}

/// What a drag does to a window.
#[derive(Clone, Copy, Debug, PartialEq, Eq, Structural)]
pub enum DragPlan {
    Ignore,
    /// Move the window by the drag's delta.
    Translate,
    /// Change the desired size by the drag's delta along the edges.
    Resize(WindowResizeEdge),
}

/// Where and with which button a drag happened.
#[derive(Clone, Copy, Debug, PartialEq, Eq, Structural)]
pub struct DragEvent {
    /// Whether the primary button is dragged.
    pub primary: bool,
    /// Whether the shell draws the window's frame.
    pub server_window: bool,
    /// Whether the frame or the header is dragged.
    pub shell_target: bool,
    /// Whether the drag was aimed at that very node.
    pub direct: bool,
    /// Scale between screen pixels and logical units.
    pub scale: Real32,
}

/// Whether a running interaction takes the drags of `surface`.
pub open spec fn interaction_runs(
    interaction: Option<WindowInteraction>,
    surface: SurfaceId,
) -> bool {
    interaction matches Some(active) && active.surface == surface
        && active.end_after_revision is None
}

/// What a drag does to the window of `surface`.
pub open spec fn drag_plan(
    drag: DragEvent,
    surface: SurfaceId,
    interaction: Option<WindowInteraction>,
) -> DragPlan {
    let shell_drag = drag.server_window && drag.shell_target && drag.direct;
    let runs = interaction_runs(interaction, surface);
    if !drag.primary || (!shell_drag && !runs) || !drag.scale.finite() || !drag.scale.positive() {
        DragPlan::Ignore
    } else if runs {
        match (interaction->0).kind {
            WindowInteractionKind::Move => DragPlan::Translate,
            WindowInteractionKind::Resize(edges) => DragPlan::Resize(edges),
        }
    } else {
        DragPlan::Translate
    }
}

/// Decides what a drag does to the window of `surface`.
pub fn drag_window(
    drag: DragEvent,
    surface: SurfaceId,
    interaction: &Option<WindowInteraction>,
) -> (plan: DragPlan)
    ensures
        plan == drag_plan(drag, surface, *interaction),
{
    if !drag.primary {
        return DragPlan::Ignore;
    }
    let running: Option<WindowInteraction> = match *interaction {
        Some(active) => if active.surface == surface && active.end_after_revision.is_none() {
            Some(active)
        } else {
            None
        },
        None => None,
    };
    let shell_drag: bool = drag.server_window && drag.shell_target && drag.direct;
    if !shell_drag && running.is_none() {
        return DragPlan::Ignore;
    }
    if !drag.scale.is_finite() || !drag.scale.is_positive() {
        return DragPlan::Ignore;
    }
    match running {
        Some(active) => match active.kind {
            WindowInteractionKind::Move => DragPlan::Translate,
            WindowInteractionKind::Resize(edges) => DragPlan::Resize(edges),
        },
        None => DragPlan::Translate,
    }
}

/// Records the size that a resize has reached and asks the client for it once
/// its whole units change.
pub fn record_resize(
    active: &mut WindowInteraction,
    desired_size: Vec2,
    width: u32,
    height: u32,
    actions: &mut SurfaceActionQueue,
)
    ensures
        *final(active) == (WindowInteraction {
            desired_size,
            requested_width: width,
            requested_height: height,
            ..*old(active)
        }),
        final(actions)@ == if width != old(active).requested_width || height
            != old(active).requested_height {
            old(actions)@.push(
                SurfaceAction::Resize { surface: old(active).surface, width, height },
            )
        } else {
            old(actions)@
        },
{
    active.desired_size = desired_size;
    if width != active.requested_width || height != active.requested_height {
        active.requested_width = width;
        active.requested_height = height;
        actions.push(SurfaceAction::Resize { surface: active.surface, width, height });
    }
}

/// After a sync the focus is on a mapped window, or nowhere if no window is
/// mapped; a focus on a mapped window stays.
pub proof fn focus_settles_on_a_mapped_window(
    focus: Option<SurfaceId>,
    windows: Seq<WindowRoot>,
    states: Seq<WindowSurface>,
)
    ensures
        ({
            let next = topmost(windows, states);
            let after = if focus_moves(focus, windows, states) {
                next
            } else {
                focus
            };
            &&& after matches Some(surface) ==> is_mapped(states, surface)
            &&& (focus is Some && is_mapped(states, focus->0)) ==> after == focus
            &&& after is None ==> forall|i: int|
                0 <= i < windows.len() ==> !is_mapped(states, (#[trigger] windows[i]).surface)
        }),
{
    topmost_is_mapped(windows, states);
}

proof fn topmost_is_mapped(windows: Seq<WindowRoot>, states: Seq<WindowSurface>)
    ensures
        topmost(windows, states) matches Some(surface) ==> is_mapped(states, surface)
            && is_presented(windows, surface),
        topmost(windows, states) is None ==> forall|i: int|
            0 <= i < windows.len() ==> !is_mapped(states, (#[trigger] windows[i]).surface),
    decreases windows.len(),
{
    if windows.len() > 0 {
        let lower = windows.drop_last();
        topmost_is_mapped(lower, states);
        if topmost(lower, states) is Some {
            let surface = topmost(lower, states)->0;
            let i = choose|i: int| 0 <= i < lower.len() && (#[trigger] lower[i]).surface == surface;
            assert(windows[i].surface == surface);
        }
        assert(windows.last() == windows[windows.len() - 1]);
        assert forall|i: int| topmost(windows, states) is None && 0 <= i < windows.len() implies !is_mapped(
            states,
            (#[trigger] windows[i]).surface,
        ) by {
            if i < lower.len() {
                assert(lower[i] == windows[i]);
            }
        }
    }
}

/// No mapped window is stacked above the topmost one.
pub proof fn topmost_is_highest(windows: Seq<WindowRoot>, states: Seq<WindowSurface>, i: int)
    requires
        0 <= i < windows.len(),
        is_mapped(states, windows[i].surface),
    ensures
        topmost(windows, states) matches Some(surface) && (state_of(
            states,
            windows[i].surface,
        )->0).placement.z_index <= (state_of(states, surface)->0).placement.z_index,
    decreases windows.len(),
{
    if i < windows.len() - 1 {
        assert(windows.drop_last()[i] == windows[i]);
        topmost_is_highest(windows.drop_last(), states, i);
    }
}

/// An interaction never outlives the window that it belongs to.
pub proof fn interactions_need_an_interactive_window(
    active: Option<WindowInteraction>,
    states: Seq<WindowSurface>,
)
    ensures
        still_interactive(active, states) matches Some(running) ==> is_interactive(
            states,
            running.surface,
        ),
{
}

/// While a window is resized the edge opposite to the pulled one stays in place,
/// on each axis: the planned coordinate and the mapped size sum up to where the
/// far edge was when the resize began. On an axis that is not pulled from the
/// left or the top the window stays where it is placed. `number` is any reading
/// of the encodings as numbers.
pub proof fn resizes_keep_the_far_edges(
    state: WindowSurface,
    running: WindowInteraction,
    edges: WindowResizeEdge,
    number: spec_fn(Real32) -> int,
)
    requires
        state.mapped is Some,
        running.surface == state.surface,
        running.kind == WindowInteractionKind::Resize(edges),
    ensures
        ({
            let planned = window_position(state, Some(running));
            let size = (state.mapped->0).logical_size;
            let coordinate = |axis: AxisPosition|
                match axis {
                    AxisPosition::Placed(place) => number(place),
                    AxisPosition::Anchored { anchor_position, anchor_size, size } => number(
                        anchor_position,
                    ) + number(anchor_size) - number(size),
                };
            &&& if edges is Left || edges is TopLeft || edges is BottomLeft {
                &&& coordinate(planned.x) + number(size.x) == number(running.anchor_position.x)
                    + number(running.anchor_size.x)
                &&& planned.x is Anchored
            } else {
                planned.x == AxisPosition::Placed(state.placement.position.x)
            }
            &&& if edges is Top || edges is TopLeft || edges is TopRight {
                &&& coordinate(planned.y) + number(size.y) == number(running.anchor_position.y)
                    + number(running.anchor_size.y)
                &&& planned.y is Anchored
            } else {
                planned.y == AxisPosition::Placed(state.placement.position.y)
            }
            &&& planned.replaces_placement
        }),
{
}

/// A window that is not being resized stands where it is placed, on both axes,
/// and its placement is kept.
pub proof fn windows_stand_where_they_are_placed(
    state: WindowSurface,
    active: Option<WindowInteraction>,
)
    requires
        state.mapped is None || active is None || (active->0).surface != state.surface || (
        active->0).kind is Move,
    ensures
        window_position(state, active).x == AxisPosition::Placed(state.placement.position.x),
        window_position(state, active).y == AxisPosition::Placed(state.placement.position.y),
        !window_position(state, active).replaces_placement,
{
}

/// A resize that has just begun leaves its window where it is, whichever edge is
/// pulled. `number` is any reading of the encodings as numbers.
pub proof fn fresh_resizes_leave_the_window_in_place(
    active: Option<WindowInteraction>,
    states: Seq<WindowSurface>,
    windows: Seq<WindowRoot>,
    surface: SurfaceId,
    edges: WindowResizeEdge,
    number: spec_fn(Real32) -> int,
)
    requires
        is_interactive(states, surface),
        is_presented(windows, surface),
    ensures
        ({
            let request = WindowInteractionRequest {
                surface,
                kind: WindowInteractionRequestKind::Resize { edges },
            };
            let begun = after_request(active, states, windows, request);
            let state = state_of(states, surface)->0;
            let planned = window_position(state, begun);
            let coordinate = |axis: AxisPosition|
                match axis {
                    AxisPosition::Placed(place) => number(place),
                    AxisPosition::Anchored { anchor_position, anchor_size, size } => number(
                        anchor_position,
                    ) + number(anchor_size) - number(size),
                };
            &&& begun matches Some(running) && running.surface == surface && running.kind
                == WindowInteractionKind::Resize(edges)
            &&& coordinate(planned.x) == number(state.placement.position.x)
            &&& coordinate(planned.y) == number(state.placement.position.y)
        }),
{
    states_are_found(states, surface);
}

/// The full surface of a window is shifted as its client says where the client
/// draws the frame, and not at all elsewhere.
pub proof fn clients_shift_their_own_frame(
    state: WindowSurface,
    active: Option<WindowInteraction>,
)
    ensures
        state.client_owned && state.mapped is Some ==> window_position(state, active).visual_offset
            == (state.mapped->0).visual_offset,
        !state.client_owned || state.mapped is None ==> window_position(
            state,
            active,
        ).visual_offset.x.bits == 0 && window_position(state, active).visual_offset.y.bits == 0,
{
}

/// A window is displayed just if its surface is known and mapped, at the index
/// of its placement, and its frame is drawn as focused just if it has the focus.
/// A window whose surface is not known has neither a place nor an index.
pub proof fn windows_are_displayed_while_mapped(
    window: WindowRoot,
    states: Seq<WindowSurface>,
    active: Option<WindowInteraction>,
    focus: Option<SurfaceId>,
)
    ensures
        ({
            let plan = window_plan(window, states, active, focus);
            let state = state_of(states, window.surface);
            &&& plan.displayed <==> state is Some && (state->0).mapped is Some
            &&& plan.focused <==> focus == Some(window.surface)
            &&& plan.z_index is Some <==> state is Some
            &&& plan.position is Some <==> state is Some
            &&& state matches Some(known) ==> plan.z_index == Some(known.placement.z_index)
                && plan.position == Some(window_position(known, active))
            &&& state is None ==> plan.shadow is Keep
        }),
{
}

/// After a sync a mapped window whose client draws the frame has a shadow just
/// if the client draws nothing outside the window; any other window keeps what
/// it has.
pub proof fn shadows_go_with_plain_frames(state: WindowSurface, has_shadow: bool)
    ensures
        ({
            let after = match shadow_change(state, has_shadow) {
                ShadowChange::Keep => has_shadow,
                ShadowChange::Remove => false,
                ShadowChange::Insert => true,
            };
            &&& state.client_owned && state.mapped is Some ==> after == !(
            state.mapped->0).overflows()
            &&& !state.client_owned || state.mapped is None ==> after == has_shadow
            &&& after == has_shadow ==> shadow_change(state, has_shadow) is Keep
        }),
{
}

/// The state of a surface is the last one given for it; a surface for which none
/// is given has none.
pub proof fn states_are_found(states: Seq<WindowSurface>, surface: SurfaceId)
    ensures
        match state_of(states, surface) {
            Some(state) => state.surface == surface && exists|i: int|
                0 <= i < states.len() && #[trigger] states[i] == state && forall|j: int|
                    i < j < states.len() ==> (#[trigger] states[j]).surface != surface,
            None => forall|j: int|
                0 <= j < states.len() ==> (#[trigger] states[j]).surface != surface,
        },
    decreases states.len(),
{
    if states.len() > 0 {
        let earlier = states.drop_last();
        let last = states.len() - 1;
        states_are_found(earlier, surface);
        if states[last].surface == surface {
            assert(states[last] == state_of(states, surface)->0);
        } else if state_of(earlier, surface) is Some {
            let state = state_of(earlier, surface)->0;
            let i = choose|i: int|
                0 <= i < earlier.len() && #[trigger] earlier[i] == state && forall|j: int|
                    i < j < earlier.len() ==> (#[trigger] earlier[j]).surface != surface;
            assert(states[i] == state);
            assert forall|j: int| i < j < states.len() implies (#[trigger] states[j]).surface
                != surface by {
                if j < last {
                    assert(earlier[j].surface != surface);
                }
            }
        } else {
            assert forall|j: int| 0 <= j < states.len() implies (#[trigger] states[j]).surface
                != surface by {
                if j < last {
                    assert(earlier[j].surface != surface);
                }
            }
        }
    }
}

/// A request to move or resize starts an interaction on a presented, mapped
/// window that draws its own frame, from the place and the size that the window
/// has. On any other window it changes nothing.
pub proof fn requests_start_from_where_the_window_is(
    active: Option<WindowInteraction>,
    states: Seq<WindowSurface>,
    windows: Seq<WindowRoot>,
    request: WindowInteractionRequest,
)
    requires
        !(request.kind is End),
    ensures
        ({
            let after = after_request(active, states, windows, request);
            let state = state_of(states, request.surface);
            let presented = exists|i: int|
                0 <= i < windows.len() && (#[trigger] windows[i]).surface == request.surface;
            if presented && state is Some && (state->0).mapped is Some && (state->0).client_owned {
                &&& after matches Some(running)
                &&& running.surface == request.surface
                &&& running.kind == (match request.kind {
                    WindowInteractionRequestKind::Resize { edges } => WindowInteractionKind::Resize(
                        edges,
                    ),
                    _ => WindowInteractionKind::Move,
                })
                &&& running.desired_size == ((state->0).mapped->0).logical_size
                &&& running.anchor_size == ((state->0).mapped->0).logical_size
                &&& running.anchor_position == (state->0).placement.position
                &&& running.requested_width == (state->0).whole_width
                &&& running.requested_height == (state->0).whole_height
                &&& running.end_after_revision is None
            } else {
                after == active
            }
        }),
{
    states_are_found(states, request.surface);
}

/// A request to end concerns only the interaction of its own window. A move, and
/// a resize from the right or the bottom alone, is over at once. Any other
/// resize waits for the snapshot after the one that the window has, and a second
/// request does not make it wait longer.
pub proof fn endings_wait_for_anchored_resizes(
    running: WindowInteraction,
    states: Seq<WindowSurface>,
    windows: Seq<WindowRoot>,
    surface: SurfaceId,
)
    ensures
        ({
            let end = WindowInteractionRequest {
                surface,
                kind: WindowInteractionRequestKind::End,
            };
            let after = after_request(Some(running), states, windows, end);
            let again = after_request(after, states, windows, end);
            &&& running.surface != surface ==> after == Some(running)
            &&& running.surface == surface ==> {
                match running.kind {
                    WindowInteractionKind::Move => after is None,
                    WindowInteractionKind::Resize(edges) => if edges is Right || edges is Bottom
                        || edges is BottomRight {
                        after is None
                    } else {
                        &&& after matches Some(ending)
                        &&& ending == (WindowInteraction {
                            end_after_revision: ending.end_after_revision,
                            ..running
                        })
                        &&& ending.end_after_revision matches Some(revision)
                        &&& running.end_after_revision is Some ==> Some(revision)
                            == running.end_after_revision
                        &&& running.end_after_revision is None ==> revision == (match state_of(
                            states,
                            surface,
                        ) {
                            Some(state) => state.revision,
                            None => 0,
                        })
                        &&& again == after
                    },
                }
            }
        }),
{
}

/// A resize that was told to end is over with the first snapshot after that, and
/// not before; an interaction that was not told to end goes on.
pub proof fn ended_resizes_are_over_with_the_next_snapshot(
    running: WindowInteraction,
    states: Seq<WindowSurface>,
    windows: Seq<WindowRoot>,
)
    requires
        is_presented(windows, running.surface),
        is_interactive(states, running.surface),
    ensures
        ({
            let revision = (state_of(states, running.surface)->0).revision;
            &&& still_interactive(Some(running), states) == Some(running)
            &&& running.end_after_revision is None ==> !resize_is_over(
                Some(running),
                states,
                windows,
            )
            &&& running.end_after_revision is Some && running.kind is Resize ==> (resize_is_over(
                Some(running),
                states,
                windows,
            ) <==> revision > running.end_after_revision->0)
            &&& running.kind is Move ==> !resize_is_over(Some(running), states, windows)
        }),
{
}

/// An interaction ends with the window that it belongs to: once that is unmapped,
/// gone, or framed by the shell.
pub proof fn interactions_end_with_their_window(
    running: WindowInteraction,
    states: Seq<WindowSurface>,
)
    ensures
        match state_of(states, running.surface) {
            Some(state) => (still_interactive(Some(running), states) is Some <==> state.mapped
                is Some && state.client_owned),
            None => still_interactive(Some(running), states) is None,
        },
        still_interactive(Some(running), states) is Some ==> still_interactive(
            Some(running),
            states,
        ) == Some(running),
        still_interactive(None, states) is None,
{
}

/// Requests in a row do what they do one after the other; without requests
/// nothing changes.
pub proof fn requests_are_applied_in_order(
    active: Option<WindowInteraction>,
    states: Seq<WindowSurface>,
    windows: Seq<WindowRoot>,
    requests: Seq<WindowInteractionRequest>,
    last: WindowInteractionRequest,
)
    ensures
        after_requests(active, states, windows, Seq::empty()) == active,
        after_requests(active, states, windows, requests.push(last)) == after_request(
            after_requests(active, states, windows, requests),
            states,
            windows,
            last,
        ),
{
    assert(requests.push(last).drop_last() =~= requests);
}

/// Of the mapped windows with the highest index the one that is listed last is
/// the topmost.
pub proof fn topmost_is_the_last_of_the_highest(
    windows: Seq<WindowRoot>,
    states: Seq<WindowSurface>,
    i: int,
)
    requires
        0 <= i < windows.len(),
        is_mapped(states, windows[i].surface),
        forall|j: int|
            0 <= j < windows.len() && is_mapped(states, (#[trigger] windows[j]).surface) ==> if j
                <= i {
                (state_of(states, windows[j].surface)->0).placement.z_index <= (state_of(
                    states,
                    windows[i].surface,
                )->0).placement.z_index
            } else {
                (state_of(states, windows[j].surface)->0).placement.z_index < (state_of(
                    states,
                    windows[i].surface,
                )->0).placement.z_index
            },
    ensures
        topmost(windows, states) == Some(windows[i].surface),
    decreases windows.len(),
{
    let lower = windows.drop_last();
    let last = windows.len() - 1;
    if i < last {
        assert(lower[i] == windows[i]);
        assert forall|j: int|
            0 <= j < lower.len() && is_mapped(states, (#[trigger] lower[j]).surface) implies if j
            <= i {
            (state_of(states, lower[j].surface)->0).placement.z_index <= (state_of(
                states,
                lower[i].surface,
            )->0).placement.z_index
        } else {
            (state_of(states, lower[j].surface)->0).placement.z_index < (state_of(
                states,
                lower[i].surface,
            )->0).placement.z_index
        } by {
            assert(windows[j] == lower[j]);
        }
        topmost_is_the_last_of_the_highest(lower, states, i);
        assert(windows[last] == windows.last());
    } else {
        topmost_is_listed(lower, states);
        if let Some(surface) = topmost(lower, states) {
            let k = choose|k: int|
                0 <= k < lower.len() && (#[trigger] lower[k]).surface == surface && is_mapped(
                    states,
                    surface,
                );
            assert(windows[k].surface == surface);
        }
    }
}

proof fn topmost_is_listed(windows: Seq<WindowRoot>, states: Seq<WindowSurface>)
    ensures
        topmost(windows, states) matches Some(surface) ==> exists|k: int|
            0 <= k < windows.len() && (#[trigger] windows[k]).surface == surface && is_mapped(
                states,
                surface,
            ),
{
    topmost_is_mapped(windows, states);
    if let Some(surface) = topmost(windows, states) {
        let k = choose|k: int| 0 <= k < windows.len() && (#[trigger] windows[k]).surface == surface;
        assert(windows[k].surface == surface);
    }
}

/// The focus moves off a window that is not mapped, and from nowhere onto the
/// topmost window; a focus that is on the topmost window already does not move.
pub proof fn the_focus_moves_when_it_is_lost(
    focus: Option<SurfaceId>,
    windows: Seq<WindowRoot>,
    states: Seq<WindowSurface>,
)
    ensures
        focus_moves(focus, windows, states) ==> focus != topmost(windows, states),
        focus is Some && !is_mapped(states, focus->0) && topmost(windows, states) != focus
            ==> focus_moves(focus, windows, states),
        focus is None && topmost(windows, states) is Some ==> focus_moves(focus, windows, states),
{
}

/// Windows that are placed one after the other get ascending indices in a row,
/// as long as the band lasts, and the highest index after that.
pub proof fn placed_windows_are_stacked_in_order(next: i32, count: int)
    requires
        0 <= next <= WINDOW_Z_INDEX_MAX,
        0 <= count,
    ensures
        nth_index(Some(next), 0) == next,
        nth_index(Some(next), count) <= WINDOW_Z_INDEX_MAX,
        nth_index(Some(next), count) < WINDOW_Z_INDEX_MAX ==> nth_index(Some(next), count + 1)
            == nth_index(Some(next), count) + 1,
        nth_index(Some(next), count) == WINDOW_Z_INDEX_MAX ==> nth_index(Some(next), count + 1)
            == WINDOW_Z_INDEX_MAX,
        nth_index(None, count) == WINDOW_Z_INDEX_MAX,
        next_after(Some(next), count) matches Some(free) ==> free == nth_index(Some(next), count),
        next_after(Some(next), count) is None <==> next + count > WINDOW_Z_INDEX_MAX,
        next_after(None, count) is None,
{
}

/// Each placed window asks for the focus in its turn.
pub proof fn placed_windows_ask_for_the_focus(placed: Seq<PlacedWindow>, i: int)
    requires
        0 <= i < placed.len(),
    ensures
        focus_actions(placed).len() == placed.len(),
        focus_actions(placed)[i] matches SurfaceAction::Focus { surface } && surface == Some(
            placed[i].surface,
        ),
        placed_surfaces(placed).len() == placed.len(),
        placed_surfaces(placed)[i] == placed[i].surface.0,
{
}

/// The highest index in use is that of some window, and no window is above it.
pub proof fn the_highest_index_is_in_use(placements: Seq<WindowPlacement>)
    ensures
        match top_index(placements) {
            Some(top) => (exists|i: int|
                0 <= i < placements.len() && (#[trigger] placements[i]).z_index == top) && forall|
                i: int,
            |
                0 <= i < placements.len() ==> (#[trigger] placements[i]).z_index <= top,
            None => placements.len() == 0,
        },
    decreases placements.len(),
{
    if placements.len() > 0 {
        let earlier = placements.drop_last();
        let last = placements.len() - 1;
        the_highest_index_is_in_use(earlier);
        let top = top_index(placements)->0;
        if placements[last].z_index != top {
            let i = choose|i: int| 0 <= i < earlier.len() && (#[trigger] earlier[i]).z_index == top;
            assert(placements[i].z_index == top);
        }
        assert forall|i: int| 0 <= i < placements.len() implies (#[trigger] placements[i]).z_index
            <= top by {
            if i < last {
                assert(earlier[i].z_index <= top);
            }
        }
    }
}

/// Raising a window changes its index and nothing else: it stays where it is, and
/// the other windows keep their places.
pub proof fn raising_moves_no_window(
    placements: Seq<WindowPlacement>,
    source: usize,
    z_index: i32,
    i: int,
)
    requires
        source < placements.len(),
        0 <= i < placements.len(),
    ensures
        raised_placements(placements, Some(source), z_index).len() == placements.len(),
        raised_placements(placements, Some(source), z_index)[source as int].z_index == z_index,
        raised_placements(placements, Some(source), z_index)[i].position == placements[i].position,
        i != source ==> raised_placements(placements, Some(source), z_index)[i] == placements[i],
        raised_placements(placements, None, z_index) == placements,
        index_at(placements, Some(source)) == Some(placements[source as int].z_index),
        index_at(placements, None) is None,
{
}

/// A drag with the primary button at a sensible scale does what the interaction
/// of its window is about; without one, dragging the shell's frame or header
/// moves the window. An interaction of another window, or one that was told to
/// end, takes no drags.
pub proof fn drags_serve_the_running_interaction(
    drag: DragEvent,
    surface: SurfaceId,
    interaction: Option<WindowInteraction>,
)
    ensures
        ({
            let plan = drag_plan(drag, surface, interaction);
            let sensible = drag.primary && drag.scale.finite() && drag.scale.positive();
            let framed = drag.server_window && drag.shell_target && drag.direct;
            let taken = interaction is Some && (interaction->0).surface == surface && (
            interaction->0).end_after_revision is None;
            &&& !sensible ==> plan is Ignore
            &&& sensible && taken ==> (match (interaction->0).kind {
                WindowInteractionKind::Move => plan is Translate,
                WindowInteractionKind::Resize(edges) => plan == DragPlan::Resize(edges),
            })
            &&& sensible && !taken ==> plan == (if framed {
                DragPlan::Translate
            } else {
                DragPlan::Ignore
            })
        }),
{
}

/// A resize asks its client for a new size just if that differs in whole units
/// from what was asked last, and for its own window; what was asked last is then
/// the new size.
pub proof fn clients_are_asked_once_for_a_size(
    active: &mut WindowInteraction,
    desired: Vec2,
    width: u32,
    height: u32,
    actions: &mut SurfaceActionQueue,
)
    requires
        call_ensures(record_resize, (active, desired, width, height, actions), ()),
    ensures
        final(active).desired_size == desired,
        final(active).requested_width == width && final(active).requested_height == height,
        final(active).surface == old(active).surface && final(active).kind == old(active).kind,
        final(active).anchor_position == old(active).anchor_position,
        final(active).anchor_size == old(active).anchor_size,
        width == old(active).requested_width && height == old(active).requested_height ==> final(
            actions)@ == old(actions)@,
        width != old(active).requested_width || height != old(active).requested_height ==> final(
            actions)@.len() == old(actions)@.len() + 1 && (final(actions)@.last() matches
            SurfaceAction::Resize { surface, width: across, height: down } && surface == old(
            active,
        ).surface && across == width && down == height),
{
}

/// A pressed window gets the focus and says so. It is raised just if it is not on
/// top already, and no window moves.
pub proof fn pressed_windows_get_the_focus(
    surface: SurfaceId,
    source: usize,
    stack: &mut WindowStack,
    placements: &mut Vec<WindowPlacement>,
    focus: &mut Option<SurfaceId>,
    actions: &mut SurfaceActionQueue,
    raised: Option<i32>,
    i: int,
)
    requires
        source < old(placements)@.len(),
        0 <= i < old(placements)@.len(),
        call_ensures(
            focus_window,
            (surface, Some(source), stack, placements, focus, actions),
            raised,
        ),
    ensures
        *final(focus) == Some(surface),
        final(actions)@.last() == (SurfaceAction::Focus { surface: Some(surface) }),
        final(actions)@.len() == old(actions)@.len() + 1,
        final(placements)@.len() == old(placements)@.len(),
        final(placements)@[i].position == old(placements)@[i].position,
        raised matches Some(z_index) ==> final(placements)@[source as int].z_index == z_index,
        raised is None ==> final(placements)@ == old(placements)@,
        (forall|j: int|
            0 <= j < old(placements)@.len() && j != source ==> (#[trigger] old(
                placements,
            )@[j]).z_index < old(placements)@[source as int].z_index) ==> raised is None,
{
    let before = old(placements)@;
    the_highest_index_is_in_use(before);
    if raised is None {
    } else {
        assert(top_index(before) != Some(before[source as int].z_index));
        let top = top_index(before)->0;
        let k = choose|k: int| 0 <= k < before.len() && (#[trigger] before[k]).z_index == top;
        assert(before[source as int].z_index <= top);
        assert(before[k].z_index > before[source as int].z_index);
    }
}

/// After a sync each window has one plan, in order: it is displayed just while its
/// surface is mapped and focused just if it has the focus. Only mapped windows have
/// the focus, a change of it is told once, and only interactive windows interact.
pub proof fn synced_windows_have_plans(
    states: &Vec<WindowSurface>,
    windows: &Vec<WindowRoot>,
    requests: &Vec<WindowInteractionRequest>,
    interaction: &mut Option<WindowInteraction>,
    focus: &mut Option<SurfaceId>,
    actions: &mut SurfaceActionQueue,
    plans: Vec<WindowPlan>,
    i: int,
)
    requires
        call_ensures(
            sync_default_window_state,
            (states, windows, requests, interaction, focus, actions),
            plans,
        ),
        0 <= i < windows@.len(),
    ensures
        plans@.len() == windows@.len(),
        plans@[i].displayed <==> is_mapped(states@, windows@[i].surface),
        plans@[i].focused <==> *final(focus) == Some(windows@[i].surface),
        *final(focus) matches Some(surface) ==> is_mapped(states@, surface),
        *final(focus) == *old(focus) ==> final(actions)@ == old(actions)@,
        *final(focus) != *old(focus) ==> final(actions)@ == old(actions)@.push(
            SurfaceAction::Focus { surface: *final(focus) },
        ),
        *final(interaction) matches Some(running) ==> is_interactive(states@, running.surface),
{
    focus_settles_on_a_mapped_window(*old(focus), windows@, states@);
    assert(plans@[i].focused <==> *final(focus) == Some(windows@[i].surface));
}

/// The window at the pointer is the nearest one on the way up, and there is none
/// only if none is on the way.
pub proof fn the_nearest_window_is_found(
    path: &Vec<Option<SurfaceId>>,
    found: Option<usize>,
    i: int,
)
    requires
        call_ensures(nearest_window, (path,), found),
        0 <= i < path@.len(),
        path@[i] is Some,
    ensures
        found is Some && found->0 <= i && path@[found->0 as int] is Some,
{
}

} // verus!
