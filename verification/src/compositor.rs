//! One image per client surface: the plain path, on which each commit brings a
//! whole frame.
//!
//! A surface has an entry and an entity from its first event on. The entity is
//! shown while it has a frame.

use std::collections::{HashMap, VecDeque};
use vstd::prelude::*;

use crate::images::Images;
#[allow(unused_imports)]
use crate::images::{ImageModel, ImagesModel};
use crate::pixels::{image_length_matches, unpremultiply_bgra};
#[allow(unused_imports)]
use crate::pixels::{image_bytes, straight_bgra};
use crate::surface::SurfaceId;
use crate::table::table_keys;

verus! {

broadcast use vstd::std_specs::hash::group_hash_axioms;

/// A frame copied from a client buffer.
#[derive(Debug)]
pub struct SurfaceFrame {
    pub width: u32,
    pub height: u32,
    pub bgra_pixels: Vec<u8>,
    pub opaque: bool,
}

impl SurfaceFrame {
    /// The frame is not empty and its pixels fill it exactly.
    pub open spec fn valid(&self) -> bool {
        &&& self.width > 0
        &&& self.height > 0
        &&& image_bytes(self.width, self.height) <= u32::MAX
        &&& self.bgra_pixels@.len() == image_bytes(self.width, self.height)
    }

    /// The pixels with straight alpha.
    pub open spec fn straight_pixels(&self) -> Seq<u8> {
        if self.opaque {
            self.bgra_pixels@
        } else {
            straight_bgra(self.bgra_pixels@)
        }
    }
}

/// Whether a frame is not empty and its pixels fill it exactly.
pub fn validate_frame(frame: &SurfaceFrame) -> (valid: bool)
    ensures
        valid == frame.valid(),
{
    image_length_matches(frame.width, frame.height, frame.bgra_pixels.len())
}

/// What happened to a client surface.
#[derive(Debug)]
pub enum SurfaceEvent {
    Mapped { surface: SurfaceId },
    Frame { surface: SurfaceId, frame: SurfaceFrame },
    Unmapped { surface: SurfaceId },
    Destroyed { surface: SurfaceId },
}

/// `event` brings a frame for the surface that `previous` brought one for.
pub open spec fn replaces(previous: SurfaceEvent, event: SurfaceEvent) -> bool {
    match (previous, event) {
        (
            SurfaceEvent::Frame { surface: earlier, .. },
            SurfaceEvent::Frame { surface: later, .. },
        ) => earlier == later,
        _ => false,
    }
}

/// The queue with one more event: a frame takes the place of the frame right
/// before it, of the same surface.
pub open spec fn queued(events: Seq<SurfaceEvent>, event: SurfaceEvent) -> Seq<SurfaceEvent> {
    if events.len() > 0 && replaces(events.last(), event) {
        events.drop_last().push(event)
    } else {
        events.push(event)
    }
}

/// Events that wait to be applied, oldest first.
pub struct FrameEventQueue {
    events: VecDeque<SurfaceEvent>,
}

impl View for FrameEventQueue {
    type V = Seq<SurfaceEvent>;

    closed spec fn view(&self) -> Seq<SurfaceEvent> {
        self.events@
    }
}

impl FrameEventQueue {
    pub fn new() -> (queue: Self)
        ensures
            queue@ == Seq::<SurfaceEvent>::empty(),
    {
        FrameEventQueue { events: VecDeque::new() }
    }

    pub fn push(&mut self, event: SurfaceEvent)
        ensures
            final(self)@ == queued(old(self)@, event),
    {
        let ghost before = self@;
        if let SurfaceEvent::Frame { surface, .. } = &event {
            match self.events.pop_back() {
                Some(newest) => {
                    let same = match &newest {
                        SurfaceEvent::Frame { surface: previous, .. } => *previous == *surface,
                        _ => false,
                    };
                    if !same {
                        self.events.push_back(newest);
                        assert(self@ =~= before);
                    }
                },
                None => {},
            }
        }
        self.events.push_back(event);
        assert(self@ =~= queued(before, event));
    }

    pub fn len(&self) -> (len: usize)
        ensures
            len == self@.len(),
    {
        self.events.len()
    }

    fn pop(&mut self) -> (event: Option<SurfaceEvent>)
        ensures
            match event {
                Some(event) => old(self)@.len() > 0 && event == old(self)@[0] && final(self)@
                    == old(self)@.drop_first(),
                None => old(self)@.len() == 0 && final(self)@ == old(self)@,
            },
    {
        let ghost before = self@;
        let event = self.events.pop_front();
        proof {
            if before.len() > 0 {
                assert(self@ =~= before.drop_first());
            } else {
                assert(self@ =~= before);
            }
        }
        event
    }
}

/// A registered surface and its entity.
#[derive(Clone, Copy, Debug, PartialEq, Eq, Structural)]
pub struct SurfaceEntry {
    /// The entity exists.
    pub alive: bool,
    /// The image that the entity shows.
    pub node_image: Option<u64>,
    /// The entity is laid out.
    pub visible: bool,
    /// The image that holds the surface's frame.
    pub image: Option<u64>,
    pub frame_ready: bool,
}

impl SurfaceEntry {
    /// A surface without a frame.
    pub open spec fn fresh() -> SurfaceEntry {
        SurfaceEntry {
            alive: true,
            node_image: None,
            visible: false,
            image: None,
            frame_ready: false,
        }
    }
}

/// The surfaces and their images.
pub struct SurfaceCompositor {
    camera: bool,
    images: Option<Images>,
    entries: HashMap<u64, SurfaceEntry>,
}

/// What a [`SurfaceCompositor`] holds. Without a camera no entity can be made,
/// without images no frame can be kept.
#[verifier::ext_equal]
pub struct CompositorModel {
    pub camera: bool,
    pub images: Option<ImagesModel>,
    pub entries: Map<u64, SurfaceEntry>,
}

impl View for SurfaceCompositor {
    type V = CompositorModel;

    closed spec fn view(&self) -> CompositorModel {
        CompositorModel {
            camera: self.camera,
            images: match self.images {
                Some(images) => Some(images@),
                None => None,
            },
            entries: self.entries@,
        }
    }
}

impl CompositorModel {
    pub open spec fn wf(self) -> bool {
        &&& self.images is Some ==> self.images->0.wf()
        &&& forall|key: u64| #[trigger]
            self.entries.contains_key(key) ==> {
                let entry = self.entries[key];
                &&& entry.frame_ready == (entry.image is Some)
                &&& entry.alive && entry.frame_ready ==> entry.visible && entry.node_image
                    == entry.image
            }
    }

    /// There are handles left for `count` more images.
    pub open spec fn room(self, count: nat) -> bool {
        self.images is Some ==> self.images->0.next + count <= u64::MAX
    }

    pub open spec fn alive(self, surface: SurfaceId) -> bool {
        self.entries.contains_key(surface.0) && self.entries[surface.0].alive
    }

    /// The surface has an entity, unless there is no camera for it.
    pub open spec fn ensured(self, surface: SurfaceId) -> CompositorModel {
        if self.alive(surface) {
            self
        } else if self.camera {
            CompositorModel {
                entries: self.entries.insert(surface.0, SurfaceEntry::fresh()),
                ..self
            }
        } else {
            CompositorModel { entries: self.entries.remove(surface.0), ..self }
        }
    }

    /// The state of `surface`, which has an entity, with a new frame. The image
    /// that it has is rewritten; otherwise a new one is made.
    pub open spec fn frame_shown(self, surface: SurfaceId, frame: SurfaceFrame) -> CompositorModel {
        let images = self.images->0;
        let entry = self.entries[surface.0];
        let reused = entry.image is Some && images.entries.contains_key(entry.image->0);
        let handle = if reused {
            entry.image->0
        } else {
            images.next
        };
        CompositorModel {
            images: Some(
                if reused {
                    images.rewritten(handle, frame.width, frame.height, frame.straight_pixels())
                } else {
                    images.added(
                        ImageModel {
                            width: frame.width,
                            height: frame.height,
                            pixels: frame.straight_pixels(),
                            writable: true,
                        },
                    )
                },
            ),
            entries: self.entries.insert(
                surface.0,
                SurfaceEntry {
                    node_image: if reused {
                        entry.node_image
                    } else {
                        Some(handle)
                    },
                    visible: true,
                    image: Some(handle),
                    frame_ready: true,
                    ..entry
                },
            ),
            ..self
        }
    }

    /// An invalid frame is discarded; so is one that nothing can hold.
    pub open spec fn frame_applied(self, surface: SurfaceId, frame: SurfaceFrame) -> CompositorModel {
        if !frame.valid() {
            self
        } else {
            let ensured = self.ensured(surface);
            if ensured.alive(surface) && ensured.images is Some {
                ensured.frame_shown(surface, frame)
            } else {
                ensured
            }
        }
    }

    pub open spec fn images_without(self, image: Option<u64>) -> Option<ImagesModel> {
        match (self.images, image) {
            (Some(images), Some(handle)) => Some(images.removed(handle)),
            _ => self.images,
        }
    }

    /// The surface shows nothing and its image is gone.
    pub open spec fn unmapped(self, surface: SurfaceId) -> CompositorModel {
        if self.entries.contains_key(surface.0) {
            let entry = self.entries[surface.0];
            CompositorModel {
                images: self.images_without(entry.image),
                entries: self.entries.insert(
                    surface.0,
                    SurfaceEntry {
                        image: None,
                        frame_ready: false,
                        node_image: if entry.alive {
                            None
                        } else {
                            entry.node_image
                        },
                        visible: entry.visible && !entry.alive,
                        ..entry
                    },
                ),
                ..self
            }
        } else {
            self
        }
    }

    /// The surface, its entity and its image are gone.
    pub open spec fn destroyed(self, surface: SurfaceId) -> CompositorModel {
        if self.entries.contains_key(surface.0) {
            CompositorModel {
                images: self.images_without(self.entries[surface.0].image),
                entries: self.entries.remove(surface.0),
                ..self
            }
        } else {
            self
        }
    }

    pub open spec fn event_applied(self, event: SurfaceEvent) -> CompositorModel {
        match event {
            SurfaceEvent::Mapped { surface } => self.ensured(surface),
            SurfaceEvent::Frame { surface, frame } => self.frame_applied(surface, frame),
            SurfaceEvent::Unmapped { surface } => self.unmapped(surface),
            SurfaceEvent::Destroyed { surface } => self.destroyed(surface),
        }
    }

    pub open spec fn events_applied(self, events: Seq<SurfaceEvent>) -> CompositorModel
        decreases events.len(),
    {
        if events.len() == 0 {
            self
        } else {
            self.event_applied(events[0]).events_applied(events.drop_first())
        }
    }
}

impl SurfaceCompositor {
    pub fn new(camera: bool, images_available: bool) -> (compositor: Self)
        ensures
            compositor@.camera == camera,
            (compositor@.images is Some) == images_available,
            images_available ==> compositor@.images->0.next == 0
                && compositor@.images->0.entries.len() == 0,
            compositor@.entries == Map::<u64, SurfaceEntry>::empty(),
            compositor@.wf(),
            compositor@.room(0),
    {
        SurfaceCompositor {
            camera,
            images: if images_available {
                Some(Images::new())
            } else {
                None
            },
            entries: HashMap::new(),
        }
    }

    /// The entry of a surface.
    pub fn entry(&self, surface: SurfaceId) -> (entry: Option<SurfaceEntry>)
        ensures
            entry == (if self@.entries.contains_key(surface.0) {
                Some(self@.entries[surface.0])
            } else {
                None
            }),
    {
        match self.entries.get(&surface.0) {
            Some(entry) => Some(*entry),
            None => None,
        }
    }

    /// The images, where there are any.
    pub fn images(&self) -> (images: Option<&Images>)
        ensures
            match images {
                Some(images) => self@.images == Some(images@),
                None => self@.images is None,
            },
    {
        match &self.images {
            Some(images) => Some(images),
            None => None,
        }
    }

    /// Takes note that the entity of a surface was despawned by someone else.
    pub fn forget_entity(&mut self, surface: SurfaceId)
        requires
            old(self)@.wf(),
        ensures
            final(self)@.wf(),
            final(self)@ == (if old(self)@.entries.contains_key(surface.0) {
                CompositorModel {
                    entries: old(self)@.entries.insert(
                        surface.0,
                        SurfaceEntry { alive: false, ..old(self)@.entries[surface.0] },
                    ),
                    ..old(self)@
                }
            } else {
                old(self)@
            }),
    {
        if let Some(entry) = self.entry(surface) {
            self.entries.insert(
                surface.0,
                SurfaceEntry {
                    alive: false,
                    node_image: entry.node_image,
                    visible: entry.visible,
                    image: entry.image,
                    frame_ready: entry.frame_ready,
                },
            );
        }
    }

    fn ensure_surface_entity(&mut self, surface: SurfaceId) -> (entry: Option<SurfaceEntry>)
        requires
            old(self)@.wf(),
        ensures
            final(self)@.wf(),
            final(self)@ == old(self)@.ensured(surface),
            match entry {
                Some(entry) => final(self)@.alive(surface) && entry
                    == final(self)@.entries[surface.0],
                None => !final(self)@.alive(surface),
            },
    {
        let ghost before = self@;
        if let Some(entry) = self.entry(surface) {
            if entry.alive {
                return Some(entry);
            }
        }
        self.entries.remove(&surface.0);
        if !self.camera {
            assert(self@ =~= before.ensured(surface));
            return None;
        }
        let entry = SurfaceEntry {
            alive: true,
            node_image: None,
            visible: false,
            image: None,
            frame_ready: false,
        };
        self.entries.insert(surface.0, entry);
        assert(self@ =~= before.ensured(surface));
        Some(entry)
    }

    fn apply_surface_frame(&mut self, surface: SurfaceId, frame: SurfaceFrame)
        requires
            old(self)@.wf(),
            old(self)@.room(1),
        ensures
            final(self)@.wf(),
            final(self)@ == old(self)@.frame_applied(surface, frame),
    {
        let ghost before = self@;
        let ghost incoming = frame;
        if !validate_frame(&frame) {
            return;
        }
        let entry = match self.ensure_surface_entity(surface) {
            Some(entry) => entry,
            None => {
                return;
            },
        };
        let ghost ensured = self@;
        let SurfaceFrame { width, height, bgra_pixels, opaque } = frame;
        let mut pixels: Vec<u8> = bgra_pixels;
        if !opaque {
            unpremultiply_bgra(pixels.as_mut_slice());
        }
        let mut available: Option<Images> = None;
        std::mem::swap(&mut available, &mut self.images);
        match available {
            Some(held) => {
                let mut images: Images = held;
                let mut node_image = entry.node_image;
                let reused: Option<u64> = match entry.image {
                    Some(handle) => if images.contains(handle) {
                        Some(handle)
                    } else {
                        None
                    },
                    None => None,
                };
                let handle: u64 = match reused {
                    Some(handle) => {
                        images.rewrite(handle, width, height, pixels);
                        handle
                    },
                    None => {
                        let handle: u64 = images.insert_new(width, height, pixels, true);
                        node_image = Some(handle);
                        handle
                    },
                };
                self.images = Some(images);
                self.entries.insert(
                    surface.0,
                    SurfaceEntry {
                        alive: entry.alive,
                        node_image,
                        visible: true,
                        image: Some(handle),
                        frame_ready: true,
                    },
                );
                assert(self@ =~= ensured.frame_shown(surface, incoming));
            },
            None => {
                assert(self@ =~= ensured);
            },
        }
    }

    fn drop_image(&mut self, image: Option<u64>)
        ensures
            final(self)@ == (CompositorModel {
                images: old(self)@.images_without(image),
                ..old(self)@
            }),
            old(self)@.wf() ==> final(self)@.wf(),
    {
        if let Some(handle) = image {
            let mut available: Option<Images> = None;
            std::mem::swap(&mut available, &mut self.images);
            if let Some(held) = available {
                let mut images: Images = held;
                images.remove(handle);
                self.images = Some(images);
            }
        }
    }

    fn unmap_surface(&mut self, surface: SurfaceId)
        requires
            old(self)@.wf(),
        ensures
            final(self)@.wf(),
            final(self)@ == old(self)@.unmapped(surface),
    {
        let ghost before = self@;
        if let Some(entry) = self.entry(surface) {
            self.drop_image(entry.image);
            self.entries.insert(
                surface.0,
                SurfaceEntry {
                    alive: entry.alive,
                    node_image: if entry.alive {
                        None
                    } else {
                        entry.node_image
                    },
                    visible: entry.visible && !entry.alive,
                    image: None,
                    frame_ready: false,
                },
            );
            assert(self@ =~= before.unmapped(surface));
        }
    }

    fn destroy_surface(&mut self, surface: SurfaceId)
        requires
            old(self)@.wf(),
        ensures
            final(self)@.wf(),
            final(self)@ == old(self)@.destroyed(surface),
    {
        let ghost before = self@;
        if let Some(entry) = self.entry(surface) {
            self.drop_image(entry.image);
            self.entries.remove(&surface.0);
            assert(self@ =~= before.destroyed(surface));
        }
    }

    /// Applies one event.
    pub fn apply_event(&mut self, event: SurfaceEvent)
        requires
            old(self)@.wf(),
            old(self)@.room(1),
        ensures
            final(self)@.wf(),
            final(self)@ == old(self)@.event_applied(event),
    {
        match event {
            SurfaceEvent::Mapped { surface } => {
                self.ensure_surface_entity(surface);
            },
            SurfaceEvent::Frame { surface, frame } => {
                self.apply_surface_frame(surface, frame);
            },
            SurfaceEvent::Unmapped { surface } => {
                self.unmap_surface(surface);
            },
            SurfaceEvent::Destroyed { surface } => {
                self.destroy_surface(surface);
            },
        }
    }

    /// Applies all events that wait, oldest first.
    pub fn apply_host_surface_events(&mut self, events: &mut FrameEventQueue)
        requires
            old(self)@.wf(),
            old(self)@.room(old(events)@.len()),
        ensures
            final(self)@.wf(),
            final(self)@ == old(self)@.events_applied(old(events)@),
            final(events)@.len() == 0,
    {
        let ghost before = self@;
        let ghost all = events@;
        loop
            invariant_except_break
                self@.wf(),
                self@.room(events@.len()),
                self@.events_applied(events@) == before.events_applied(all),
            ensures
                self@.wf(),
                events@.len() == 0,
                self@ == before.events_applied(all),
            decreases events@.len(),
        {
            match events.pop() {
                Some(event) => {
                    self.apply_event(event);
                },
                None => {
                    break;
                },
            }
        }
    }

    /// Whether some surface has a frame.
    pub fn has_surface_frame(&self) -> (ready: bool)
        ensures
            ready == exists|key: u64| #[trigger]
                self@.entries.contains_key(key) && self@.entries[key].frame_ready,
    {
        let keys = table_keys(&self.entries);
        let mut i: usize = 0;
        while i < keys.len()
            invariant
                i <= keys@.len(),
                forall|key: u64| #[trigger]
                    keys@.contains(key) <==> self.entries@.contains_key(key),
                forall|k: int|
                    0 <= k < i ==> !self@.entries[#[trigger] keys@[k]].frame_ready,
            decreases keys@.len() - i,
        {
            assert(keys@.contains(keys@[i as int]));
            if let Some(entry) = self.entries.get(&keys[i]) {
                if entry.frame_ready {
                    assert(self@.entries.contains_key(keys@[i as int]));
                    return true;
                }
            }
            i = i + 1;
        }
        assert forall|key: u64| #[trigger] self@.entries.contains_key(key) implies !self@.entries[key].frame_ready by {
            assert(keys@.contains(key));
            let k = choose|k: int| 0 <= k < keys@.len() && keys@[k] == key;
            assert(keys@[k] == key);
        }
        false
    }
}

/// Frames of one surface in a row share one image.
pub proof fn frames_reuse_the_image(
    state: CompositorModel,
    surface: SurfaceId,
    first: SurfaceFrame,
    second: SurfaceFrame,
)
    requires
        state.wf(),
        state.camera,
        state.images is Some,
        state.room(1),
        first.valid(),
        second.valid(),
    ensures
        ({
            let once = state.frame_applied(surface, first);
            let twice = once.frame_applied(surface, second);
            &&& twice.entries[surface.0] == once.entries[surface.0]
            &&& twice.images->0.next == once.images->0.next
            &&& twice.images->0.entries[twice.entries[surface.0].image->0].pixels
                == second.straight_pixels()
        }),
{
}

/// Coalescing frames loses nothing but the frames that were never shown: the
/// surface ends up in the same state.
pub proof fn only_the_last_frame_counts(
    state: CompositorModel,
    surface: SurfaceId,
    first: SurfaceFrame,
    second: SurfaceFrame,
)
    requires
        state.wf(),
        state.room(1),
        first.valid(),
        second.valid(),
    ensures
        state.frame_applied(surface, first).frame_applied(surface, second)
            == state.frame_applied(surface, second),
{
    assert(state.frame_applied(surface, first).frame_applied(surface, second)
        =~= state.frame_applied(surface, second));
    let once = state.frame_applied(surface, first);
    let twice = once.frame_applied(surface, second);
    let direct = state.frame_applied(surface, second);
    if state.ensured(surface).alive(surface) && state.images is Some {
        assert(twice.images->0 =~= direct.images->0);
        assert(twice.entries =~= direct.entries);
    }
}

/// A surface that was destroyed has neither an entry nor an image.
pub proof fn destroying_leaves_nothing(state: CompositorModel, surface: SurfaceId)
    requires
        state.wf(),
    ensures
        !state.destroyed(surface).entries.contains_key(surface.0),
        state.entries.contains_key(surface.0) && state.entries[surface.0].image is Some
            && state.images is Some ==> !state.destroyed(surface).images->0.entries.contains_key(
            state.entries[surface.0].image->0,
        ),
{
}

/// An invalid frame leaves everything as it was, entities included.
pub proof fn invalid_frames_change_nothing(
    state: CompositorModel,
    surface: SurfaceId,
    frame: SurfaceFrame,
)
    requires
        !frame.valid(),
    ensures
        state.event_applied(SurfaceEvent::Frame { surface, frame }) == state,
{
}

/// A valid frame is what its surface shows: at its own size, with color and alpha
/// parted unless it is opaque, in an image of its own. Other surfaces show what
/// they showed.
pub proof fn valid_frames_are_shown(
    state: CompositorModel,
    surface: SurfaceId,
    frame: SurfaceFrame,
    other: SurfaceId,
)
    requires
        state.wf(),
        state.room(1),
        state.camera,
        state.images is Some,
        frame.valid(),
        other != surface,
    ensures
        ({
            let after = state.event_applied(SurfaceEvent::Frame { surface, frame });
            let entry = after.entries[surface.0];
            let images = after.images->0;
            &&& after.entries.contains_key(surface.0) && entry.alive
            &&& entry.visible && entry.frame_ready
            &&& entry.image is Some && entry.node_image == entry.image
            &&& after.images is Some && images.entries.contains_key(entry.image->0)
            &&& images.entries[entry.image->0].width == frame.width
            &&& images.entries[entry.image->0].height == frame.height
            &&& frame.opaque ==> images.entries[entry.image->0].pixels == frame.bgra_pixels@
            &&& !frame.opaque ==> images.entries[entry.image->0].pixels == straight_bgra(
                frame.bgra_pixels@,
            )
            &&& after.entries.contains_key(other.0) == state.entries.contains_key(other.0)
            &&& after.entries[other.0] == state.entries[other.0]
        }),
{
}

/// A surface that is mapped has an entity without a frame, unless it had one
/// already; without a camera there is none for it.
pub proof fn mapped_surfaces_have_an_entity(state: CompositorModel, surface: SurfaceId)
    ensures
        ({
            let after = state.event_applied(SurfaceEvent::Mapped { surface });
            let entry = after.entries[surface.0];
            &&& after.images == state.images && after.camera == state.camera
            &&& state.alive(surface) ==> after == state
            &&& !state.alive(surface) && state.camera ==> {
                &&& after.alive(surface)
                &&& !entry.visible && !entry.frame_ready
                &&& entry.image is None && entry.node_image is None
            }
            &&& !state.alive(surface) && !state.camera ==> !after.entries.contains_key(surface.0)
        }),
{
}

/// A surface that is unmapped shows nothing, keeps its entity, and gives up its
/// image and no other.
pub proof fn unmapped_surfaces_show_nothing(
    state: CompositorModel,
    surface: SurfaceId,
    handle: u64,
)
    requires
        state.alive(surface),
    ensures
        ({
            let after = state.event_applied(SurfaceEvent::Unmapped { surface });
            let entry = after.entries[surface.0];
            let before = state.entries[surface.0];
            &&& after.alive(surface)
            &&& !entry.visible && !entry.frame_ready
            &&& entry.image is None && entry.node_image is None
            &&& state.images is Some ==> {
                &&& after.images is Some
                &&& before.image matches Some(image)
                    ==> !(after.images->0).entries.contains_key(image)
                &&& before.image != Some(handle) ==> ((after.images->0).entries.contains_key(handle)
                    <==> (state.images->0).entries.contains_key(handle))
            }
        }),
{
}

/// Destroying or unmapping a surface leaves the others as they are.
pub proof fn other_surfaces_are_left_alone(
    state: CompositorModel,
    surface: SurfaceId,
    other: SurfaceId,
)
    requires
        other != surface,
    ensures
        state.destroyed(surface).entries.contains_key(other.0) == state.entries.contains_key(
            other.0,
        ),
        state.destroyed(surface).entries[other.0] == state.entries[other.0],
        state.unmapped(surface).entries.contains_key(other.0) == state.entries.contains_key(
            other.0,
        ),
        state.unmapped(surface).entries[other.0] == state.entries[other.0],
{
}

/// A frame is valid just if it has an extent that its pixels fill, four bytes
/// each.
pub proof fn valid_frames_fill_their_extent(frame: SurfaceFrame)
    ensures
        frame.valid() <==> frame.width > 0 && frame.height > 0 && frame.bgra_pixels@.len()
            == frame.width * frame.height * 4 && frame.bgra_pixels@.len() <= u32::MAX,
{
}

/// A frame takes the place of the frame right before it, of the same surface;
/// every other event waits behind those before it.
pub proof fn frames_replace_their_predecessor(
    events: Seq<SurfaceEvent>,
    event: SurfaceEvent,
    i: int,
)
    requires
        0 <= i < events.len(),
    ensures
        queued(events, event).last() == event,
        ({
            let joins = match (events.last(), event) {
                (
                    SurfaceEvent::Frame { surface: earlier, .. },
                    SurfaceEvent::Frame { surface: later, .. },
                ) => earlier.0 == later.0,
                _ => false,
            };
            &&& queued(events, event).len() == (if joins {
                events.len()
            } else {
                events.len() + 1
            })
            &&& !joins || i < events.len() - 1 ==> queued(events, event)[i] == events[i]
        }),
        queued(Seq::empty(), event) == seq![event],
{
}

/// Events in a row do what they do one after the other.
pub proof fn frame_events_are_applied_in_order(
    state: CompositorModel,
    events: Seq<SurfaceEvent>,
    last: SurfaceEvent,
)
    ensures
        state.events_applied(Seq::empty()) == state,
        state.events_applied(events.push(last)) == state.events_applied(events).event_applied(last),
    decreases events.len(),
{
    reveal_with_fuel(CompositorModel::events_applied, 2);
    let all = events.push(last);
    if events.len() == 0 {
        assert(all.drop_first() =~= Seq::empty());
    } else {
        assert(all.drop_first() =~= events.drop_first().push(last));
        frame_events_are_applied_in_order(
            state.event_applied(events[0]),
            events.drop_first(),
            last,
        );
    }
}

} // verus!
