//! The single-window path: one toplevel at a time, of which only the root
//! surface is shown.

use vstd::prelude::*;

use crate::raw_input::ButtonState;
use crate::shm::{checked_buffer_scale, SurfaceBufferMetadata};
use crate::surface::{SurfaceContentView, SurfaceId};
use crate::surface_tree::{Assignment, ImportedBuffer};
use crate::toplevel::allocate_surface_id;

verus! {

/// The toplevel that is shown.
#[derive(Clone, Copy, Debug, PartialEq, Eq, Structural)]
pub struct ActiveToplevel {
    /// The integer that the protocol object of its root surface goes by.
    pub root: u64,
    pub id: SurfaceId,
    pub buffer: Option<SurfaceBufferMetadata>,
    pub view: Option<SurfaceContentView>,
}

/// What is to be announced of the toplevel.
#[derive(Debug)]
pub enum RootEvent {
    Frame {
        surface: SurfaceId,
        width: u32,
        height: u32,
        shown: SurfaceContentView,
        bgra_pixels: Vec<u8>,
        opaque: bool,
    },
    ViewChanged { surface: SurfaceId, view: SurfaceContentView },
    /// The surface shows nothing any more, and loses the input focus.
    Unmapped { surface: SurfaceId },
}

/// The toplevel that is shown, and the ids of those to come.
#[derive(Clone, Copy, Debug, PartialEq, Eq, Structural)]
pub struct SingleWindow {
    pub active: Option<ActiveToplevel>,
    /// The next id to hand out; none once they have run out.
    pub next_surface_id: Option<u64>,
    pub presentation_requested: bool,
}

/// A new toplevel, and the one whose place it took.
#[derive(Clone, Copy, Debug, PartialEq, Eq, Structural)]
pub struct Replacement {
    pub destroyed: Option<SurfaceId>,
    pub created: SurfaceId,
}

/// Two views say the same, in numbers.
pub open spec fn same_view(first: SurfaceContentView, second: SurfaceContentView) -> bool {
    &&& first.source_x.same(second.source_x)
    &&& first.source_y.same(second.source_y)
    &&& first.source_width.same(second.source_width)
    &&& first.source_height.same(second.source_height)
    &&& first.logical_width.same(second.logical_width)
    &&& first.logical_height.same(second.logical_height)
}

fn views_equal(first: SurfaceContentView, second: SurfaceContentView) -> (same: bool)
    ensures
        same == same_view(first, second),
{
    first.source_x.equals(second.source_x) && first.source_y.equals(second.source_y)
        && first.source_width.equals(second.source_width) && first.source_height.equals(
        second.source_height,
    ) && first.logical_width.equals(second.logical_width) && first.logical_height.equals(
        second.logical_height,
    )
}

impl ActiveToplevel {
    /// The metadata of the buffer at hand under a new scale and transform.
    pub open spec fn rescaled(self, scale: i32, normal_transform: bool) -> Option<
        SurfaceBufferMetadata,
    > {
        if self.buffer is Some && scale > 0 {
            Some(
                SurfaceBufferMetadata {
                    scale: scale as u32,
                    normal_transform,
                    ..self.buffer->0
                },
            )
        } else {
            None
        }
    }

    /// The toplevel after a commit.
    pub open spec fn committed(self, assignment: Assignment) -> ActiveToplevel {
        match assignment {
            Assignment::NewBuffer(Some(imported)) => ActiveToplevel {
                buffer: Some(imported.metadata),
                view: Some(imported.view),
                ..self
            },
            Assignment::NewBuffer(None) | Assignment::Removed => ActiveToplevel {
                buffer: None,
                view: None,
                ..self
            },
            Assignment::Retained { scale, normal_transform, view } => {
                let metadata = self.rescaled(scale, normal_transform);
                if metadata is Some && view is Some {
                    ActiveToplevel {
                        buffer: metadata,
                        view: if self.view is Some && same_view(self.view->0, view->0) {
                            self.view
                        } else {
                            view
                        },
                        ..self
                    }
                } else {
                    self
                }
            },
        }
    }

    /// `event` is what a commit announces.
    pub open spec fn announces(self, assignment: Assignment, event: Option<RootEvent>) -> bool {
        match assignment {
            Assignment::NewBuffer(Some(imported)) => event == Some(
                RootEvent::Frame {
                    surface: self.id,
                    width: imported.metadata.width,
                    height: imported.metadata.height,
                    shown: imported.view,
                    bgra_pixels: imported.pixels,
                    opaque: imported.opaque,
                },
            ),
            Assignment::NewBuffer(None) => event is None,
            Assignment::Removed => event == Some(RootEvent::Unmapped { surface: self.id }),
            Assignment::Retained { scale, normal_transform, view } => {
                if self.rescaled(scale, normal_transform) is Some && view is Some && !(self.view
                    is Some && same_view(self.view->0, view->0)) {
                    event == Some(RootEvent::ViewChanged { surface: self.id, view: view->0 })
                } else {
                    event is None
                }
            },
        }
    }
}

impl SingleWindow {
    /// The toplevel that is shown has an id from before those to come.
    pub open spec fn wf(self) -> bool {
        self.active is Some && self.next_surface_id is Some ==> self.active->0.id.0
            < self.next_surface_id->0
    }

    /// The window after an id was handed out.
    pub open spec fn id_taken(self) -> SingleWindow {
        SingleWindow {
            next_surface_id: match self.next_surface_id {
                Some(raw) => if raw == u64::MAX {
                    None
                } else {
                    Some((raw + 1) as u64)
                },
                None => None,
            },
            ..self
        }
    }

    /// The window after `count` ids were asked for.
    pub open spec fn ids_taken(self, count: nat) -> SingleWindow
        decreases count,
    {
        if count == 0 {
            self
        } else {
            self.ids_taken((count - 1) as nat).id_taken()
        }
    }

    pub fn new() -> (window: Self)
        ensures
            window.active is None,
            window.next_surface_id == Some(1u64),
            !window.presentation_requested,
            window.wf(),
    {
        SingleWindow { active: None, next_surface_id: Some(1), presentation_requested: false }
    }

    /// Hands out the next id. Ids are never handed out twice: once they have
    /// run out there are no more.
    pub fn allocate_surface_id(&mut self) -> (id: Option<SurfaceId>)
        ensures
            id == (match old(self).next_surface_id {
                Some(raw) => Some(SurfaceId(raw)),
                None => None,
            }),
            *final(self) == old(self).id_taken(),
            old(self).wf() ==> final(self).wf(),
    {
        allocate_surface_id(&mut self.next_surface_id)
    }

    /// Shows a new toplevel in place of the one that is shown. Once the ids
    /// have run out it is refused, and is to be closed: nothing changes then.
    pub fn new_toplevel(&mut self, root: u64) -> (replacement: Option<Replacement>)
        ensures
            match old(self).next_surface_id {
                Some(raw) => {
                    &&& replacement == Some(
                        Replacement {
                            destroyed: match old(self).active {
                                Some(active) => Some(active.id),
                                None => None,
                            },
                            created: SurfaceId(raw),
                        },
                    )
                    &&& *final(self) == (SingleWindow {
                        active: Some(
                            ActiveToplevel { root, id: SurfaceId(raw), buffer: None, view: None },
                        ),
                        presentation_requested: true,
                        ..old(self).id_taken()
                    })
                },
                None => replacement is None && *final(self) == *old(self),
            },
            old(self).wf() ==> final(self).wf(),
    {
        let destroyed = match self.active {
            Some(active) => Some(active.id),
            None => None,
        };
        let created = match self.allocate_surface_id() {
            Some(created) => created,
            None => {
                return None;
            },
        };
        self.active = Some(ActiveToplevel { root, id: created, buffer: None, view: None });
        self.presentation_requested = true;
        Some(Replacement { destroyed, created })
    }

    /// Takes note that a toplevel was destroyed; the id to announce, if it was
    /// the one that is shown.
    pub fn toplevel_destroyed(&mut self, root: u64) -> (destroyed: Option<SurfaceId>)
        ensures
            destroyed == (match old(self).active {
                Some(active) => if active.root == root {
                    Some(active.id)
                } else {
                    None
                },
                None => None,
            }),
            *final(self) == (SingleWindow {
                active: if destroyed is Some {
                    None
                } else {
                    old(self).active
                },
                ..*old(self)
            }),
    {
        if let Some(active) = self.active {
            if active.root == root {
                self.active = None;
                return Some(active.id);
            }
        }
        None
    }

    /// Whether a commit of `surface` is one of the toplevel that is shown. Even
    /// one without a new buffer may wait to be told of the next frame.
    pub fn commit(&mut self, surface: u64) -> (shown: bool)
        ensures
            shown == (old(self).active is Some && old(self).active->0.root == surface),
            *final(self) == (SingleWindow {
                presentation_requested: old(self).presentation_requested || shown,
                ..*old(self)
            }),
    {
        let shown = match self.active {
            Some(active) => active.root == surface,
            None => false,
        };
        if shown {
            self.presentation_requested = true;
        }
        shown
    }

    /// The metadata under which the buffer at hand is to be viewed; none if
    /// there is no buffer or the scale is not positive.
    pub fn retained_metadata(&self, scale: i32, normal_transform: bool) -> (metadata: Option<
        SurfaceBufferMetadata,
    >)
        ensures
            metadata == (match self.active {
                Some(active) => active.rescaled(scale, normal_transform),
                None => None,
            }),
    {
        let previous = match self.active {
            Some(active) => match active.buffer {
                Some(metadata) => metadata,
                None => {
                    return None;
                },
            },
            None => {
                return None;
            },
        };
        match checked_buffer_scale(scale) {
            Ok(scale) => Some(
                SurfaceBufferMetadata {
                    width: previous.width,
                    height: previous.height,
                    scale,
                    normal_transform,
                },
            ),
            Err(_) => None,
        }
    }

    /// Takes in a commit of the toplevel that is shown; what to announce of it.
    /// A buffer that could not be imported is dropped without a word, and so is
    /// a view that could not be worked out.
    pub fn handle_root_commit(&mut self, assignment: Assignment) -> (event: Option<RootEvent>)
        ensures
            match old(self).active {
                Some(active) => {
                    &&& active.announces(assignment, event)
                    &&& *final(self) == (SingleWindow {
                        active: Some(active.committed(assignment)),
                        ..*old(self)
                    })
                },
                None => event is None && *final(self) == *old(self),
            },
    {
        let active = match self.active {
            Some(active) => active,
            None => {
                return None;
            },
        };
        match assignment {
            Assignment::NewBuffer(imported) => {
                match imported {
                    Some(imported) => {
                        let ImportedBuffer { metadata, view, pixels, opaque } = imported;
                        self.active = Some(
                            ActiveToplevel {
                                root: active.root,
                                id: active.id,
                                buffer: Some(metadata),
                                view: Some(view),
                            },
                        );
                        Some(
                            RootEvent::Frame {
                                surface: active.id,
                                width: metadata.width,
                                height: metadata.height,
                                shown: view,
                                bgra_pixels: pixels,
                                opaque,
                            },
                        )
                    },
                    None => {
                        self.active = Some(
                            ActiveToplevel {
                                root: active.root,
                                id: active.id,
                                buffer: None,
                                view: None,
                            },
                        );
                        None
                    },
                }
            },
            Assignment::Removed => {
                self.active = Some(
                    ActiveToplevel { root: active.root, id: active.id, buffer: None, view: None },
                );
                Some(RootEvent::Unmapped { surface: active.id })
            },
            Assignment::Retained { scale, normal_transform, view } => {
                let metadata = match self.retained_metadata(scale, normal_transform) {
                    Some(metadata) => metadata,
                    None => {
                        return None;
                    },
                };
                let view = match view {
                    Some(view) => view,
                    None => {
                        return None;
                    },
                };
                let unchanged = match active.view {
                    Some(previous) => views_equal(previous, view),
                    None => false,
                };
                if unchanged {
                    self.active = Some(
                        ActiveToplevel {
                            root: active.root,
                            id: active.id,
                            buffer: Some(metadata),
                            view: active.view,
                        },
                    );
                    None
                } else {
                    self.active = Some(
                        ActiveToplevel {
                            root: active.root,
                            id: active.id,
                            buffer: Some(metadata),
                            view: Some(view),
                        },
                    );
                    Some(RootEvent::ViewChanged { surface: active.id, view })
                }
            },
        }
    }

    /// Takes note that a frame was presented.
    pub fn frame_presented(&mut self)
        ensures
            *final(self) == (SingleWindow { presentation_requested: false, ..*old(self) }),
    {
        self.presentation_requested = false;
    }

    /// Whether the pointer can be over `surface`: only over the toplevel that is
    /// shown, while it is alive.
    pub fn takes_pointer(&self, surface: SurfaceId, alive: bool) -> (takes: bool)
        ensures
            takes == (alive && self.active is Some && self.active->0.id == surface),
    {
        alive && self.can_close(surface)
    }

    /// Whether `surface` is the toplevel that is shown, and so can be closed.
    pub fn can_close(&self, surface: SurfaceId) -> (can: bool)
        ensures
            can == (self.active is Some && self.active->0.id == surface),
    {
        match self.active {
            Some(active) => active.id.0 == surface.0,
            None => false,
        }
    }
}

/// Whether a button event moves the keyboard focus to where the pointer is: a
/// press does, outside of grabs.
pub fn press_moves_keyboard_focus(state: ButtonState, grabbed: bool) -> (moves: bool)
    ensures
        moves == (state is Pressed && !grabbed),
{
    matches!(state, ButtonState::Pressed) && !grabbed
}

/// Metadata of a buffer that was copied, under the scale that its surface asks
/// for.
pub fn imported_metadata(width: u32, height: u32, scale: i32, normal_transform: bool) -> (metadata:
    Result<SurfaceBufferMetadata, crate::shm::InvalidBufferScale>)
    ensures
        match metadata {
            Ok(metadata) => scale > 0 && metadata == (SurfaceBufferMetadata {
                width,
                height,
                scale: scale as u32,
                normal_transform,
            }),
            Err(error) => scale <= 0 && error == crate::shm::InvalidBufferScale(scale),
        },
{
    match checked_buffer_scale(scale) {
        Ok(scale) => Ok(SurfaceBufferMetadata { width, height, scale, normal_transform }),
        Err(error) => Err(error),
    }
}

/// An id that was handed out is below every one that is handed out later.
pub proof fn surface_ids_ascend(window: SingleWindow, later: nat)
    requires
        later > 0,
        window.next_surface_id is Some,
        window.ids_taken(later).next_surface_id is Some,
    ensures
        window.next_surface_id->0 < window.ids_taken(later).next_surface_id->0,
    decreases later,
{
    if later == 1 {
        assert(window.ids_taken(0) == window);
    } else {
        surface_ids_ascend(window, (later - 1) as nat);
    }
}

/// Once the ids have run out no toplevel gets one any more.
pub proof fn exhausted_ids_stay_exhausted(window: SingleWindow, later: nat)
    requires
        window.next_surface_id is None,
    ensures
        window.ids_taken(later) == window,
    decreases later,
{
    if later > 0 {
        exhausted_ids_stay_exhausted(window, (later - 1) as nat);
    }
}

/// A toplevel has a view just when it has a buffer, whatever is committed.
pub proof fn views_come_with_buffers(active: ActiveToplevel, assignment: Assignment)
    requires
        active.buffer is Some == active.view is Some,
    ensures
        active.committed(assignment).buffer is Some == active.committed(assignment).view is Some,
        active.committed(assignment).id == active.id,
{
}

/// Committing the same view again announces nothing.
pub proof fn views_are_announced_once(
    active: ActiveToplevel,
    scale: i32,
    normal_transform: bool,
    view: SurfaceContentView,
    event: Option<RootEvent>,
)
    requires
        same_view(view, view),
        ({
            let again = Assignment::Retained { scale, normal_transform, view: Some(view) };
            active.committed(again).announces(again, event)
        }),
    ensures
        event is None,
{
}

/// A commit with a new buffer is announced as a frame of the toplevel: with the
/// buffer's own size, the view that is shown of it, its pixels and whether it is
/// opaque. From then on the toplevel has that buffer and that view.
pub proof fn frames_show_what_was_committed(
    active: ActiveToplevel,
    imported: ImportedBuffer,
    event: Option<RootEvent>,
)
    requires
        active.announces(Assignment::NewBuffer(Some(imported)), event),
    ensures
        event matches Some(RootEvent::Frame { surface, width, height, shown, bgra_pixels, opaque })
            && surface == active.id && width == imported.metadata.width && height
            == imported.metadata.height && shown == imported.view && bgra_pixels == imported.pixels
            && opaque == imported.opaque,
        active.committed(Assignment::NewBuffer(Some(imported))).buffer == Some(imported.metadata),
        active.committed(Assignment::NewBuffer(Some(imported))).view == Some(imported.view),
{
}

/// A commit that removes the buffer unmaps the toplevel and says so; one whose
/// buffer could not be imported does so without a word.
pub proof fn lost_buffers_leave_nothing_to_show(
    active: ActiveToplevel,
    removed: Option<RootEvent>,
    failed: Option<RootEvent>,
)
    requires
        active.announces(Assignment::Removed, removed),
        active.announces(Assignment::NewBuffer(None), failed),
    ensures
        removed matches Some(RootEvent::Unmapped { surface }) && surface == active.id,
        failed is None,
        active.committed(Assignment::Removed).buffer is None,
        active.committed(Assignment::Removed).view is None,
        active.committed(Assignment::NewBuffer(None)).buffer is None,
        active.committed(Assignment::NewBuffer(None)).view is None,
{
}

/// A commit that keeps its buffer keeps the size of it. A new view of it is
/// announced, and is the toplevel's from then on. Without a buffer, a positive
/// scale or a view nothing changes and nothing is announced.
pub proof fn retained_commits_change_the_view_alone(
    active: ActiveToplevel,
    scale: i32,
    normal_transform: bool,
    view: Option<SurfaceContentView>,
    event: Option<RootEvent>,
)
    requires
        active.announces(Assignment::Retained { scale, normal_transform, view }, event),
    ensures
        ({
            let after = active.committed(Assignment::Retained { scale, normal_transform, view });
            let counts = active.buffer is Some && scale > 0 && view is Some;
            let differs = active.view is None || !same_view(active.view->0, view->0);
            &&& !counts ==> after == active && event is None
            &&& counts ==> {
                &&& after.buffer matches Some(buffer)
                &&& buffer.width == (active.buffer->0).width
                &&& buffer.height == (active.buffer->0).height
                &&& buffer.scale == scale && buffer.normal_transform == normal_transform
                &&& differs ==> after.view == view && (event matches Some(
                    RootEvent::ViewChanged { surface, view: told },
                ) && surface == active.id && told == view->0)
                &&& !differs ==> after.view == active.view && event is None
            }
            &&& after.root == active.root && after.id == active.id
        }),
{
}

/// Two views are the same just if they agree in all their numbers: the corner,
/// the extent in the image, and the extent that it is shown at.
pub proof fn same_views_agree_in_every_number(
    first: SurfaceContentView,
    second: SurfaceContentView,
)
    ensures
        same_view(first, second) <==> first.source_x.same(second.source_x) && first.source_y.same(
            second.source_y,
        ) && first.source_width.same(second.source_width) && first.source_height.same(
            second.source_height,
        ) && first.logical_width.same(second.logical_width) && first.logical_height.same(
            second.logical_height,
        ),
        same_view(first, second) == same_view(second, first),
{
}

/// Handing out an id leaves the next higher one, until they have run out, and
/// does not change what is shown.
pub proof fn ids_are_handed_out_one_by_one(window: SingleWindow)
    ensures
        window.id_taken().active == window.active,
        window.id_taken().presentation_requested == window.presentation_requested,
        window.next_surface_id matches Some(raw) ==> if raw < u64::MAX {
            window.id_taken().next_surface_id matches Some(next) && next == raw + 1
        } else {
            window.id_taken().next_surface_id is None
        },
        window.next_surface_id is None ==> window.id_taken().next_surface_id is None,
{
}

/// A new toplevel takes the place of the one that is shown, under a new id, with
/// nothing to show yet; the one before is the one to announce as gone.
pub proof fn new_toplevels_take_over(
    window: &mut SingleWindow,
    root: u64,
    replacement: Option<Replacement>,
)
    requires
        call_ensures(SingleWindow::new_toplevel, (window, root), replacement),
    ensures
        replacement is Some <==> old(window).next_surface_id is Some,
        replacement is None ==> *final(window) == *old(window),
        replacement matches Some(taken) ==> {
            &&& Some(taken.created.0) == old(window).next_surface_id
            &&& taken.destroyed is Some <==> old(window).active is Some
            &&& old(window).active matches Some(before) ==> taken.destroyed == Some(before.id)
            &&& final(window).active matches Some(shown)
            &&& shown.root == root && shown.id == taken.created
            &&& shown.buffer is None && shown.view is None
            &&& final(window).presentation_requested
        },
{
}

/// Only the toplevel that is shown is announced as destroyed, by its id; the loss
/// of any other changes nothing.
pub proof fn destroyed_toplevels_are_announced(
    window: &mut SingleWindow,
    root: u64,
    destroyed: Option<SurfaceId>,
)
    requires
        call_ensures(SingleWindow::toplevel_destroyed, (window, root), destroyed),
    ensures
        destroyed is Some <==> old(window).active is Some && (old(window).active->0).root == root,
        destroyed matches Some(id) ==> id == (old(window).active->0).id && final(window).active
            is None,
        destroyed is None ==> *final(window) == *old(window),
        final(window).next_surface_id == old(window).next_surface_id,
{
}

/// Only the toplevel that is shown can be closed, and it takes the pointer only
/// while it is alive.
pub proof fn only_the_shown_toplevel_reacts(
    window: &SingleWindow,
    surface: SurfaceId,
    alive: bool,
    takes: bool,
    can: bool,
)
    requires
        call_ensures(SingleWindow::takes_pointer, (window, surface, alive), takes),
        call_ensures(SingleWindow::can_close, (window, surface), can),
    ensures
        can <==> window.active is Some && (window.active->0).id == surface,
        takes <==> can && alive,
{
}

/// What a commit says of a buffer is taken over as it is: of a new one its size
/// too, of the one at hand only what the commit may change, while that keeps its
/// size. Neither is possible with a scale of zero or less.
pub proof fn buffers_are_described_as_committed(
    width: u32,
    height: u32,
    scale: i32,
    normal_transform: bool,
    imported: Result<SurfaceBufferMetadata, crate::shm::InvalidBufferScale>,
    window: &SingleWindow,
    retained: Option<SurfaceBufferMetadata>,
)
    requires
        call_ensures(imported_metadata, (width, height, scale, normal_transform), imported),
        call_ensures(SingleWindow::retained_metadata, (window, scale, normal_transform), retained),
    ensures
        imported is Ok <==> scale >= 1,
        imported matches Ok(metadata) ==> metadata.width == width && metadata.height == height
            && metadata.scale == scale && metadata.normal_transform == normal_transform,
        retained is Some <==> scale >= 1 && window.active is Some && (window.active->0).buffer
            is Some,
        retained matches Some(metadata) ==> {
            &&& metadata.width == ((window.active->0).buffer->0).width
            &&& metadata.height == ((window.active->0).buffer->0).height
            &&& metadata.scale == scale && metadata.normal_transform == normal_transform
        },
{
}

/// Only a press that no grab holds moves the focus of the keyboard.
pub proof fn free_presses_move_the_focus(state: ButtonState, grabbed: bool, moves: bool)
    requires
        call_ensures(press_moves_keyboard_focus, (state, grabbed), moves),
    ensures
        moves ==> state is Pressed && !grabbed,
        state is Pressed && !grabbed ==> moves,
{
}

} // verus!
