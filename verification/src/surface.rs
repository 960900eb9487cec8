//! Client-surface identities, roles and tree snapshots.

use std::collections::VecDeque;
use vstd::prelude::*;

use crate::number::{Real32, Vec2};

verus! {

/// Stable compositor identity for one client surface.
#[derive(Clone, Copy, Debug, PartialEq, Eq, Hash, Structural)]
pub struct SurfaceId(pub u64);

impl SurfaceId {
    pub fn new(raw: u64) -> (id: SurfaceId)
        ensures
            id.0 == raw,
    {
        SurfaceId(raw)
    }

    pub fn raw(self) -> (raw: u64)
        ensures
            raw == self.0,
    {
        self.0
    }
}

/// Stable protocol-neutral identity for one buffer-bearing surface layer.
#[derive(Clone, Copy, Debug, PartialEq, Eq, Hash, Structural)]
pub struct SurfaceLayerId(pub u64);

impl SurfaceLayerId {
    pub fn new(raw: u64) -> (id: SurfaceLayerId)
        ensures
            id.0 == raw,
    {
        SurfaceLayerId(raw)
    }

    pub fn raw(self) -> (raw: u64)
        ensures
            raw == self.0,
    {
        self.0
    }
}

/// Semantic application-window state exposed to compositor plugins.
#[derive(Clone, Copy, Debug, PartialEq, Eq, Structural)]
pub struct AppWindow {
    pub surface: SurfaceId,
}

/// Generic identity shared by every buffer-bearing client surface role.
#[derive(Clone, Copy, Debug, PartialEq, Eq, Structural)]
pub struct ClientSurface {
    pub surface: SurfaceId,
}

/// Protocol-owned popup placement relative to its owning window geometry.
#[derive(Clone, Copy, Debug, PartialEq, Eq, Structural)]
pub struct AppPopup {
    pub owner: SurfaceId,
    pub position: Vec2,
    pub stack_index: i32,
}

/// Which side owns the visible frame and titlebar for an application window.
#[derive(Clone, Copy, Debug, PartialEq, Eq, Structural)]
pub enum WindowDecoration {
    ClientSide,
    ServerSide,
}

impl Default for WindowDecoration {
    fn default() -> (decoration: WindowDecoration)
        ensures
            decoration == WindowDecoration::ClientSide,
    {
        WindowDecoration::ClientSide
    }
}

/// A window whose client owns its frame, titlebar, and resize handles.
#[derive(Clone, Copy, Debug, PartialEq, Eq, Structural)]
pub struct ClientDecorated;

/// A window whose compositor owns its frame and titlebar.
#[derive(Clone, Copy, Debug, PartialEq, Eq, Structural)]
pub struct ServerDecorated;

/// Protocol-neutral state available while an application surface is mapped.
#[derive(Clone, Copy, Debug, PartialEq, Eq, Structural)]
pub struct MappedSurface {
    /// Window-geometry extent exposed to shell layout.
    pub logical_size: Vec2,
    /// Offset from the window-geometry anchor to the full surface bounds.
    pub visual_offset: Vec2,
    /// Full surface extent, with client-owned visual overflow.
    pub visual_size: Vec2,
    pub opaque: bool,
}

impl MappedSurface {
    /// Whether the full surface differs from the window geometry.
    pub open spec fn overflows(self) -> bool {
        !self.visual_offset.same(Vec2::origin()) || !self.visual_size.same(self.logical_size)
    }

    /// Whether the client renders pixels outside its declared window geometry.
    pub fn has_visual_overflow(self) -> (overflow: bool)
        ensures
            overflow == self.overflows(),
    {
        !self.visual_offset.equals(Vec2::zero()) || !self.visual_size.equals(self.logical_size)
    }
}

/// Which logical bounds a [`SurfaceNode`] presents.
#[derive(Clone, Copy, Debug, PartialEq, Eq, Structural)]
pub enum SurfaceView {
    /// Present the complete client surface, with its shadow margins.
    FullSurface,
    /// Present only the declared window geometry.
    WindowGeometry,
}

impl Default for SurfaceView {
    fn default() -> (view: SurfaceView)
        ensures
            view == SurfaceView::WindowGeometry,
    {
        SurfaceView::WindowGeometry
    }
}

/// A client surface that composes as an ordinary UI primitive.
#[derive(Clone, Copy, Debug, PartialEq, Eq, Structural)]
pub struct SurfaceNode {
    pub surface: SurfaceId,
    pub view: SurfaceView,
}

/// Request emitted by shell policy for the protocol host to apply.
#[allow(inconsistent_fields)]
#[derive(Clone, Copy, Debug, PartialEq, Eq, Structural)]
pub enum SurfaceAction {
    Close { surface: SurfaceId },
    Focus { surface: Option<SurfaceId> },
    Resize { surface: SurfaceId, width: u32, height: u32 },
}

/// Edge or corner selected by a client for an interactive resize.
#[derive(Clone, Copy, Debug, PartialEq, Eq, Structural)]
pub enum WindowResizeEdge {
    Top,
    Bottom,
    Left,
    Right,
    TopLeft,
    BottomLeft,
    TopRight,
    BottomRight,
}

impl WindowResizeEdge {
    pub open spec fn left(self) -> bool {
        self is Left || self is TopLeft || self is BottomLeft
    }

    pub open spec fn right(self) -> bool {
        self is Right || self is TopRight || self is BottomRight
    }

    pub open spec fn top(self) -> bool {
        self is Top || self is TopLeft || self is TopRight
    }

    pub open spec fn bottom(self) -> bool {
        self is Bottom || self is BottomLeft || self is BottomRight
    }

    pub fn has_left(self) -> (left: bool)
        ensures
            left == self.left(),
    {
        matches!(self, WindowResizeEdge::Left | WindowResizeEdge::TopLeft | WindowResizeEdge::BottomLeft)
    }

    pub fn has_right(self) -> (right: bool)
        ensures
            right == self.right(),
    {
        matches!(self, WindowResizeEdge::Right | WindowResizeEdge::TopRight | WindowResizeEdge::BottomRight)
    }

    pub fn has_top(self) -> (top: bool)
        ensures
            top == self.top(),
    {
        matches!(self, WindowResizeEdge::Top | WindowResizeEdge::TopLeft | WindowResizeEdge::TopRight)
    }

    pub fn has_bottom(self) -> (bottom: bool)
        ensures
            bottom == self.bottom(),
    {
        matches!(self, WindowResizeEdge::Bottom | WindowResizeEdge::BottomLeft | WindowResizeEdge::BottomRight)
    }
}

/// An edge moves at least one side and never two opposite ones.
pub proof fn resize_edges_never_oppose(edge: WindowResizeEdge)
    ensures
        edge.left() || edge.right() || edge.top() || edge.bottom(),
        !(edge.left() && edge.right()),
        !(edge.top() && edge.bottom()),
{
}

/// Validated client request for compositor-owned pointer interaction.
#[derive(Clone, Copy, Debug, PartialEq, Eq, Structural)]
pub struct WindowInteractionRequest {
    pub surface: SurfaceId,
    pub kind: WindowInteractionRequestKind,
}

#[derive(Clone, Copy, Debug, PartialEq, Eq, Structural)]
pub enum WindowInteractionRequestKind {
    Move,
    Resize { edges: WindowResizeEdge },
    End,
}

/// Shell requests in the order in which they were made.
pub struct SurfaceActionQueue {
    actions: Vec<SurfaceAction>,
}

impl View for SurfaceActionQueue {
    type V = Seq<SurfaceAction>;

    closed spec fn view(&self) -> Seq<SurfaceAction> {
        self.actions@
    }
}

impl Default for SurfaceActionQueue {
    fn default() -> (queue: SurfaceActionQueue)
        ensures
            queue@ == Seq::<SurfaceAction>::empty(),
    {
        SurfaceActionQueue { actions: Vec::new() }
    }
}

impl SurfaceActionQueue {
    pub fn push(&mut self, action: SurfaceAction)
        ensures
            final(self)@ == old(self)@.push(action),
    {
        self.actions.push(action);
    }

    /// Hands out every queued action once, oldest first.
    pub fn take_surface_actions(&mut self) -> (actions: Vec<SurfaceAction>)
        ensures
            actions@ == old(self)@,
            final(self)@ == Seq::<SurfaceAction>::empty(),
    {
        let mut actions: Vec<SurfaceAction> = Vec::new();
        std::mem::swap(&mut actions, &mut self.actions);
        actions
    }
}

/// Sampling metadata for an image that lives outside the library.
#[derive(Clone, Copy, Debug, PartialEq, Eq, Structural)]
pub struct SurfaceRenderImage {
    /// Handle of the image in the image table.
    pub image: u64,
    pub encoding: SurfaceImageEncoding,
    pub y_inverted: bool,
}

/// Color representation consumed by the surface material.
#[derive(Clone, Copy, Debug, PartialEq, Eq, Structural)]
pub enum SurfaceImageEncoding {
    LinearStraight,
    EncodedPremultiplied,
    EncodedOpaque,
}

/// New content of a surface layer, if any.
pub enum SurfaceBufferContent {
    Retained,
    Pixels(Vec<u8>),
    RenderImage(SurfaceRenderImage),
}

/// What a [`SurfaceBufferContent`] holds.
#[verifier::ext_equal]
pub enum BufferContentModel {
    Retained,
    Pixels(Seq<u8>),
    RenderImage(SurfaceRenderImage),
}

impl View for SurfaceBufferContent {
    type V = BufferContentModel;

    open spec fn view(&self) -> BufferContentModel {
        match *self {
            SurfaceBufferContent::Retained => BufferContentModel::Retained,
            SurfaceBufferContent::Pixels(pixels) => BufferContentModel::Pixels(pixels@),
            SurfaceBufferContent::RenderImage(image) => BufferContentModel::RenderImage(image),
        }
    }
}

/// Updated metadata and optional content for one tree layer.
pub struct SurfaceBufferUpdate {
    pub layer: SurfaceLayerId,
    pub width: u32,
    pub height: u32,
    /// `width` and `height` as the material uses them.
    pub extent: Vec2,
    pub content: SurfaceBufferContent,
    pub opaque: bool,
}

/// What a [`SurfaceBufferUpdate`] holds.
#[verifier::ext_equal]
pub struct BufferUpdateModel {
    pub layer: SurfaceLayerId,
    pub width: u32,
    pub height: u32,
    pub extent: Vec2,
    pub content: BufferContentModel,
    pub opaque: bool,
}

impl BufferUpdateModel {
    /// The update with other content.
    pub open spec fn with_content(self, content: BufferContentModel) -> BufferUpdateModel {
        BufferUpdateModel { content, ..self }
    }
}

impl View for SurfaceBufferUpdate {
    type V = BufferUpdateModel;

    open spec fn view(&self) -> BufferUpdateModel {
        BufferUpdateModel {
            layer: self.layer,
            width: self.width,
            height: self.height,
            extent: self.extent,
            content: self.content@,
            opaque: self.opaque,
        }
    }
}

/// The part of a client buffer displayed by a surface and its logical extent.
///
/// Source coordinates are physical image pixels; `source_right` and
/// `source_bottom` are the sums of the source position and the source extent.
#[derive(Clone, Copy, Debug, PartialEq, Eq, Structural)]
pub struct SurfaceContentView {
    pub source_x: Real32,
    pub source_y: Real32,
    pub source_width: Real32,
    pub source_height: Real32,
    pub source_right: Real32,
    pub source_bottom: Real32,
    pub logical_width: Real32,
    pub logical_height: Real32,
}

impl SurfaceContentView {
    /// Whether the view is a nonempty rectangle inside an image of `extent`.
    pub open spec fn fits(self, extent: Vec2) -> bool {
        &&& self.source_x.finite() && self.source_y.finite()
        &&& self.source_width.finite() && self.source_height.finite()
        &&& self.logical_width.finite() && self.logical_height.finite()
        &&& self.source_x.rank() >= 0 && self.source_y.rank() >= 0
        &&& self.source_width.positive() && self.source_height.positive()
        &&& self.logical_width.positive() && self.logical_height.positive()
        &&& self.source_right.not_above(extent.x) && self.source_bottom.not_above(extent.y)
    }

    /// The logical extent of the view.
    pub open spec fn logical_size(self) -> Vec2 {
        Vec2 { x: self.logical_width, y: self.logical_height }
    }
}

/// Whether `view` can be shown from an image of `extent`.
pub fn validate_view(view: SurfaceContentView, extent: Vec2) -> (valid: bool)
    ensures
        valid == view.fits(extent),
{
    view.source_x.is_finite() && view.source_y.is_finite() && view.source_width.is_finite()
        && view.source_height.is_finite() && view.logical_width.is_finite()
        && view.logical_height.is_finite() && Real32::zero().at_most(view.source_x)
        && Real32::zero().at_most(view.source_y) && view.source_width.is_positive()
        && view.source_height.is_positive() && view.logical_width.is_positive()
        && view.logical_height.is_positive() && view.source_right.at_most(extent.x)
        && view.source_bottom.at_most(extent.y)
}

/// Placement of one imported layer in root-surface logical coordinates.
#[derive(Clone, Copy, Debug, PartialEq, Eq, Structural)]
pub struct SurfaceLayerPlacement {
    pub layer: SurfaceLayerId,
    pub position: Vec2,
    pub view: SurfaceContentView,
}

/// Effective window geometry within the full root surface.
#[derive(Clone, Copy, Debug, PartialEq, Eq, Structural)]
pub struct SurfaceWindowGeometry {
    pub origin: Vec2,
    pub view: SurfaceContentView,
}

/// One effective rectangular part of a surface's input region.
#[derive(Clone, Copy, Debug, PartialEq, Eq, Structural)]
pub struct SurfaceInputRect {
    pub position: Vec2,
    pub size: Vec2,
}

impl SurfaceInputRect {
    /// Whether the rectangle is finite and nonempty.
    pub open spec fn valid(self) -> bool {
        self.position.finite() && self.size.finite() && self.size.x.positive()
            && self.size.y.positive()
    }

    pub fn is_valid(self) -> (valid: bool)
        ensures
            valid == self.valid(),
    {
        self.position.is_finite() && self.size.is_finite() && self.size.x.is_positive()
            && self.size.y.is_positive()
    }
}

/// Input regions for one exact root or subsurface layer.
pub struct SurfaceInputPlacement {
    pub layer: SurfaceLayerId,
    pub position: Vec2,
    pub regions: Vec<SurfaceInputRect>,
}

/// What a [`SurfaceInputPlacement`] holds.
#[verifier::ext_equal]
pub struct InputPlacementModel {
    pub layer: SurfaceLayerId,
    pub position: Vec2,
    pub regions: Seq<SurfaceInputRect>,
}

impl View for SurfaceInputPlacement {
    type V = InputPlacementModel;

    open spec fn view(&self) -> InputPlacementModel {
        InputPlacementModel {
            layer: self.layer,
            position: self.position,
            regions: self.regions@,
        }
    }
}

/// Complete visible tree state plus content that has not been shown yet.
pub struct SurfaceTreeSnapshot {
    pub client_mapped: bool,
    pub root: Option<SurfaceLayerPlacement>,
    pub window_geometry: Option<SurfaceWindowGeometry>,
    pub overlays: Vec<SurfaceLayerPlacement>,
    pub inputs: Vec<SurfaceInputPlacement>,
    pub buffers: Vec<SurfaceBufferUpdate>,
}

/// What a [`SurfaceTreeSnapshot`] holds.
#[verifier::ext_equal]
pub struct SnapshotModel {
    pub client_mapped: bool,
    pub root: Option<SurfaceLayerPlacement>,
    pub window_geometry: Option<SurfaceWindowGeometry>,
    pub overlays: Seq<SurfaceLayerPlacement>,
    pub inputs: Seq<InputPlacementModel>,
    pub buffers: Seq<BufferUpdateModel>,
}

impl View for SurfaceTreeSnapshot {
    type V = SnapshotModel;

    open spec fn view(&self) -> SnapshotModel {
        SnapshotModel {
            client_mapped: self.client_mapped,
            root: self.root,
            window_geometry: self.window_geometry,
            overlays: self.overlays@,
            inputs: input_models(self.inputs@),
            buffers: buffer_models(self.buffers@),
        }
    }
}

/// What each of several buffer updates holds.
pub open spec fn buffer_models(buffers: Seq<SurfaceBufferUpdate>) -> Seq<BufferUpdateModel> {
    Seq::new(buffers.len(), |i: int| buffers[i]@)
}

/// What each of several input placements holds.
pub open spec fn input_models(inputs: Seq<SurfaceInputPlacement>) -> Seq<InputPlacementModel> {
    Seq::new(inputs.len(), |i: int| inputs[i]@)
}

/// The most recent content for `layer` that no one has taken up yet.
pub open spec fn pending_content(
    buffers: Seq<BufferUpdateModel>,
    layer: SurfaceLayerId,
) -> Option<BufferContentModel>
    decreases buffers.len(),
{
    if buffers.len() == 0 {
        None
    } else if buffers.last().layer == layer && !(buffers.last().content is Retained) {
        Some(buffers.last().content)
    } else {
        pending_content(buffers.drop_last(), layer)
    }
}

/// The updates with the content of `layer` taken out.
pub open spec fn without_content(
    buffers: Seq<BufferUpdateModel>,
    layer: SurfaceLayerId,
) -> Seq<BufferUpdateModel> {
    Seq::new(
        buffers.len(),
        |i: int|
            if buffers[i].layer == layer {
                buffers[i].with_content(BufferContentModel::Retained)
            } else {
                buffers[i]
            },
    )
}

/// Whether update `j` is the first without content for its layer.
pub open spec fn first_retained(buffers: Seq<BufferUpdateModel>, j: int) -> bool {
    &&& buffers[j].content is Retained
    &&& forall|i: int|
        0 <= i < j && #[trigger] buffers[i].layer == buffers[j].layer ==> !(
        buffers[i].content is Retained)
}

/// The updates in `next` with content that `previous` had not shown carried over.
pub open spec fn carried_buffers(
    next: Seq<BufferUpdateModel>,
    previous: Seq<BufferUpdateModel>,
) -> Seq<BufferUpdateModel> {
    Seq::new(
        next.len(),
        |j: int|
            if first_retained(next, j) && pending_content(previous, next[j].layer) is Some {
                next[j].with_content(pending_content(previous, next[j].layer)->0)
            } else {
                next[j]
            },
    )
}

/// The updates in `previous` after content for the layers of `next` has been taken out.
pub open spec fn drained_buffers(
    previous: Seq<BufferUpdateModel>,
    next: Seq<BufferUpdateModel>,
) -> Seq<BufferUpdateModel> {
    Seq::new(
        previous.len(),
        |i: int|
            if exists|j: int| 0 <= j < next.len() && #[trigger] next[j].layer == previous[i].layer {
                previous[i].with_content(BufferContentModel::Retained)
            } else {
                previous[i]
            },
    )
}

proof fn taking_content_leaves_none(buffers: Seq<BufferUpdateModel>, layer: SurfaceLayerId)
    ensures
        pending_content(without_content(buffers, layer), layer) is None,
    decreases buffers.len(),
{
    if buffers.len() > 0 {
        taking_content_leaves_none(buffers.drop_last(), layer);
        assert(without_content(buffers, layer).drop_last() =~= without_content(
            buffers.drop_last(),
            layer,
        ));
    }
}

proof fn taking_content_keeps_other_layers(
    buffers: Seq<BufferUpdateModel>,
    taken: SurfaceLayerId,
    layer: SurfaceLayerId,
)
    requires
        taken != layer,
    ensures
        pending_content(without_content(buffers, taken), layer) == pending_content(buffers, layer),
    decreases buffers.len(),
{
    if buffers.len() > 0 {
        taking_content_keeps_other_layers(buffers.drop_last(), taken, layer);
        assert(without_content(buffers, taken).drop_last() =~= without_content(
            buffers.drop_last(),
            taken,
        ));
    }
}

/// Takes the content of `layer` out of `buffers` and returns the most recent one.
fn take_content(buffers: &mut Vec<SurfaceBufferUpdate>, layer: SurfaceLayerId) -> (taken: Option<
    SurfaceBufferContent,
>)
    ensures
        match taken {
            Some(content) => pending_content(buffer_models(old(buffers)@), layer) == Some(content@),
            None => pending_content(buffer_models(old(buffers)@), layer) is None,
        },
        buffer_models(final(buffers)@) == without_content(buffer_models(old(buffers)@), layer),
        final(buffers)@.len() == old(buffers)@.len(),
{
    let ghost before: Seq<BufferUpdateModel> = buffer_models(buffers@);
    let mut taken: Option<SurfaceBufferContent> = None;
    let mut i: usize = 0;
    while i < buffers.len()
        invariant
            i <= buffers@.len(),
            buffers@.len() == before.len(),
            forall|k: int|
                0 <= k < i ==> #[trigger] buffers@[k]@ == without_content(before, layer)[k],
            forall|k: int| i <= k < before.len() ==> #[trigger] buffers@[k]@ == before[k],
            match taken {
                Some(content) => pending_content(before.take(i as int), layer) == Some(content@),
                None => pending_content(before.take(i as int), layer) is None,
            },
        decreases before.len() - i,
    {
        assert(before.take(i + 1).drop_last() =~= before.take(i as int));
        assert(buffers@[i as int]@ == before[i as int]);
        if buffers[i].layer == layer {
            let mut content = SurfaceBufferContent::Retained;
            std::mem::swap(&mut content, &mut buffers[i].content);
            assert(content@ == before[i as int].content);
            match content {
                SurfaceBufferContent::Retained => {},
                content => {
                    taken = Some(content);
                },
            }
        }
        i = i + 1;
    }
    assert(before.take(i as int) =~= before);
    assert(buffer_models(buffers@) =~= without_content(before, layer));
    taken
}

impl SurfaceTreeSnapshot {
    /// Moves content that `previous` has not shown into the layers kept without
    /// content of their own.
    pub fn carry_pending_content_from(&mut self, previous: &mut SurfaceTreeSnapshot)
        ensures
            final(self)@ == (SnapshotModel {
                buffers: carried_buffers(old(self)@.buffers, old(previous)@.buffers),
                ..old(self)@
            }),
            final(previous)@ == (SnapshotModel {
                buffers: drained_buffers(old(previous)@.buffers, old(self)@.buffers),
                ..old(previous)@
            }),
    {
        carry_buffers(&mut self.buffers, &mut previous.buffers);
    }
}

/// Carries content over from `previous` to `next`.
fn carry_buffers(
    next: &mut Vec<SurfaceBufferUpdate>,
    previous: &mut Vec<SurfaceBufferUpdate>,
)
    ensures
        buffer_models(final(next)@) == carried_buffers(
            buffer_models(old(next)@),
            buffer_models(old(previous)@),
        ),
        buffer_models(final(previous)@) == drained_buffers(
            buffer_models(old(previous)@),
            buffer_models(old(next)@),
        ),
{
    let ghost before: Seq<BufferUpdateModel> = buffer_models(next@);
    let ghost offered: Seq<BufferUpdateModel> = buffer_models(previous@);
    let mut j: usize = 0;
    while j < next.len()
        invariant
            j <= next@.len(),
            next@.len() == before.len(),
            previous@.len() == offered.len(),
            forall|k: int|
                0 <= k < j ==> #[trigger] next@[k]@ == carried_buffers(before, offered)[k],
            forall|k: int| j <= k < before.len() ==> #[trigger] next@[k]@ == before[k],
            forall|layer: SurfaceLayerId|
                #![trigger pending_content(buffer_models(previous@), layer)]
                pending_content(buffer_models(previous@), layer) == if retained_before(
                    before,
                    j as int,
                    layer,
                ) {
                    None
                } else {
                    pending_content(offered, layer)
                },
            forall|i: int|
                0 <= i < offered.len() ==> #[trigger] previous@[i]@ == offered[i] || (previous@[i]@
                    == offered[i].with_content(BufferContentModel::Retained) && retained_before(
                    before,
                    j as int,
                    offered[i].layer,
                )),
        decreases before.len() - j,
    {
        assert(next@[j as int]@ == before[j as int]);
        let retained: bool = matches!(next[j].content, SurfaceBufferContent::Retained);
        let layer: SurfaceLayerId = next[j].layer;
        let ghost left: Seq<BufferUpdateModel> = buffer_models(previous@);
        assert(first_retained(before, j as int) == (retained && !retained_before(
            before,
            j as int,
            layer,
        )));
        if retained {
            let taken = take_content(previous, layer);
            proof {
                assert forall|other: SurfaceLayerId|
                    #![trigger pending_content(buffer_models(previous@), other)]
                    pending_content(buffer_models(previous@), other) == if retained_before(
                        before,
                        j + 1,
                        other,
                    ) {
                        None
                    } else {
                        pending_content(offered, other)
                    } by {
                    assert(pending_content(left, other) == pending_content(left, other));
                    if other == layer {
                        taking_content_leaves_none(left, layer);
                        assert(before[j as int].layer == layer);
                    } else {
                        taking_content_keeps_other_layers(left, layer, other);
                        retained_before_steps(before, j as int, other);
                    }
                }
                assert forall|i: int| 0 <= i < offered.len() implies #[trigger] previous@[i]@
                    == offered[i] || (previous@[i]@ == offered[i].with_content(
                    BufferContentModel::Retained,
                ) && retained_before(before, j + 1, offered[i].layer)) by {
                    assert(buffer_models(previous@)[i] == without_content(left, layer)[i]);
                    retained_before_steps(before, j as int, offered[i].layer);
                    if offered[i].layer == layer {
                        assert(before[j as int].layer == layer);
                        assert(retained_before(before, j + 1, layer));
                    }
                }
            }
            match taken {
                Some(content) => {
                    next[j].content = content;
                },
                None => {},
            }
        } else {
            proof {
                assert forall|other: SurfaceLayerId| #[trigger]
                    retained_before(before, j + 1, other) == retained_before(
                    before,
                    j as int,
                    other,
                ) by {
                    retained_before_steps(before, j as int, other);
                }
            }
        }
        j = j + 1;
    }
    assert(buffer_models(next@) =~= carried_buffers(before, offered));
    let ghost carried: Seq<SurfaceBufferUpdate> = next@;
    let mut d: usize = 0;
    while d < next.len()
        invariant
            d <= next@.len(),
            next@ == carried,
            buffer_models(carried) == carried_buffers(before, offered),
            carried.len() == before.len(),
            previous@.len() == offered.len(),
            forall|i: int|
                0 <= i < offered.len() ==> #[trigger] previous@[i]@ == offered[i] || (previous@[i]@
                    == offered[i].with_content(BufferContentModel::Retained) && exists|k: int|
                    0 <= k < before.len() && #[trigger] before[k].layer == offered[i].layer),
            forall|i: int, k: int|
                #![trigger previous@[i], before[k]]
                0 <= i < offered.len() && 0 <= k < d && before[k].layer == offered[i].layer
                    ==> previous@[i]@ == offered[i].with_content(BufferContentModel::Retained),
        decreases before.len() - d,
    {
        let layer: SurfaceLayerId = next[d].layer;
        assert(buffer_models(carried)[d as int].layer == before[d as int].layer);
        let ghost left: Seq<SurfaceBufferUpdate> = previous@;
        take_content(previous, layer);
        proof {
            assert forall|i: int| 0 <= i < offered.len() implies #[trigger] previous@[i]@
                == if left[i]@.layer == layer {
                left[i]@.with_content(BufferContentModel::Retained)
            } else {
                left[i]@
            } by {
                assert(buffer_models(previous@)[i] == without_content(
                    buffer_models(left),
                    layer,
                )[i]);
            }
        }
        d = d + 1;
    }
    assert(buffer_models(previous@) =~= drained_buffers(offered, before)) by {
        assert forall|i: int| 0 <= i < offered.len() implies #[trigger] buffer_models(previous@)[i]
            == drained_buffers(offered, before)[i] by {
            assert(previous@[i]@ == buffer_models(previous@)[i]);
            if exists|k: int| 0 <= k < before.len() && #[trigger] before[k].layer == offered[i].layer {
                let k = choose|k: int|
                    0 <= k < before.len() && #[trigger] before[k].layer == offered[i].layer;
                assert(previous@[i]@ == offered[i].with_content(BufferContentModel::Retained));
            }
        }
    }
}

/// Whether one of the first `count` updates keeps `layer` without content.
spec fn retained_before(
    buffers: Seq<BufferUpdateModel>,
    count: int,
    layer: SurfaceLayerId,
) -> bool {
    exists|i: int|
        0 <= i < count && #[trigger] buffers[i].layer == layer && buffers[i].content is Retained
}

proof fn retained_before_steps(buffers: Seq<BufferUpdateModel>, j: int, layer: SurfaceLayerId)
    requires
        0 <= j < buffers.len(),
    ensures
        retained_before(buffers, j + 1, layer) == (retained_before(buffers, j, layer) || (
        buffers[j].layer == layer && buffers[j].content is Retained)),
{
    if buffers[j].layer == layer && buffers[j].content is Retained {
        assert(retained_before(buffers, j + 1, layer));
    }
    if retained_before(buffers, j, layer) {
        let i = choose|i: int|
            0 <= i < j && #[trigger] buffers[i].layer == layer && buffers[i].content is Retained;
        assert(0 <= i < j + 1 && buffers[i].layer == layer);
    }
}

/// Lifecycle event of one client surface.
pub struct HostSurfaceEvent {
    pub surface: SurfaceId,
    pub kind: HostSurfaceEventKind,
}

pub enum HostSurfaceEventKind {
    Created { decoration: WindowDecoration },
    TreeSnapshot(SurfaceTreeSnapshot),
    DecorationChanged { decoration: WindowDecoration },
    PopupConfigured(AppPopup),
    WindowInteraction(WindowInteractionRequestKind),
    Destroyed,
}

/// What a [`HostSurfaceEventKind`] holds.
#[verifier::ext_equal]
pub enum EventKindModel {
    Created { decoration: WindowDecoration },
    TreeSnapshot(SnapshotModel),
    DecorationChanged { decoration: WindowDecoration },
    PopupConfigured(AppPopup),
    WindowInteraction(WindowInteractionRequestKind),
    Destroyed,
}

/// What a [`HostSurfaceEvent`] holds.
#[verifier::ext_equal]
pub struct EventModel {
    pub surface: SurfaceId,
    pub kind: EventKindModel,
}

impl View for HostSurfaceEvent {
    type V = EventModel;

    open spec fn view(&self) -> EventModel {
        EventModel {
            surface: self.surface,
            kind: match self.kind {
                HostSurfaceEventKind::Created { decoration } => EventKindModel::Created {
                    decoration,
                },
                HostSurfaceEventKind::TreeSnapshot(snapshot) => EventKindModel::TreeSnapshot(
                    snapshot@,
                ),
                HostSurfaceEventKind::DecorationChanged {
                    decoration,
                } => EventKindModel::DecorationChanged { decoration },
                HostSurfaceEventKind::PopupConfigured(popup) => EventKindModel::PopupConfigured(
                    popup,
                ),
                HostSurfaceEventKind::WindowInteraction(
                    kind,
                ) => EventKindModel::WindowInteraction(kind),
                HostSurfaceEventKind::Destroyed => EventKindModel::Destroyed,
            },
        }
    }
}

/// Events waiting for the next composition, oldest first.
pub struct SurfaceEventQueue {
    events: VecDeque<HostSurfaceEvent>,
}

/// What each of several events holds.
pub open spec fn event_models(events: Seq<HostSurfaceEvent>) -> Seq<EventModel> {
    Seq::new(events.len(), |i: int| events[i]@)
}

/// Whether `event` is merged into the newest event of `queue`.
pub open spec fn coalesces(queue: Seq<EventModel>, event: EventModel) -> bool {
    &&& event.kind is TreeSnapshot
    &&& queue.len() > 0
    &&& queue.last().kind is TreeSnapshot
    &&& queue.last().surface == event.surface
}

/// The snapshot that stands for `previous` followed by `next`.
pub open spec fn merged_snapshot(previous: SnapshotModel, next: SnapshotModel) -> SnapshotModel {
    SnapshotModel { buffers: carried_buffers(next.buffers, previous.buffers), ..next }
}

/// `queue` with `event` at its end, merged with the newest event where the two
/// are snapshots of one surface.
pub open spec fn queued(queue: Seq<EventModel>, event: EventModel) -> Seq<EventModel> {
    if coalesces(queue, event) {
        queue.drop_last().push(
            EventModel {
                surface: event.surface,
                kind: EventKindModel::TreeSnapshot(
                    merged_snapshot(
                        queue.last().kind->TreeSnapshot_0,
                        event.kind->TreeSnapshot_0,
                    ),
                ),
            },
        )
    } else {
        queue.push(event)
    }
}

impl View for SurfaceEventQueue {
    type V = Seq<EventModel>;

    closed spec fn view(&self) -> Seq<EventModel> {
        event_models(self.events@)
    }
}

impl Default for SurfaceEventQueue {
    fn default() -> (queue: SurfaceEventQueue)
        ensures
            queue@ == Seq::<EventModel>::empty(),
    {
        let queue = SurfaceEventQueue { events: VecDeque::new() };
        assert(queue@ =~= Seq::<EventModel>::empty());
        queue
    }
}

impl SurfaceEventQueue {
    pub fn push(&mut self, event: HostSurfaceEvent)
        ensures
            final(self)@ == queued(old(self)@, event@),
    {
        let ghost before: Seq<EventModel> = self@;
        let HostSurfaceEvent { surface, kind } = event;
        match kind {
            HostSurfaceEventKind::TreeSnapshot(snapshot) => {
                let mut snapshot: SurfaceTreeSnapshot = snapshot;
                match self.events.pop_back() {
                    Some(newest) => {
                        assert(before.last() == newest@);
                        let HostSurfaceEvent { surface: newest_surface, kind: newest_kind } = newest;
                        match newest_kind {
                            HostSurfaceEventKind::TreeSnapshot(previous) => {
                                let mut previous: SurfaceTreeSnapshot = previous;
                                if surface == newest_surface {
                                    snapshot.carry_pending_content_from(&mut previous);
                                } else {
                                    self.events.push_back(
                                        HostSurfaceEvent {
                                            surface: newest_surface,
                                            kind: HostSurfaceEventKind::TreeSnapshot(previous),
                                        },
                                    );
                                }
                            },
                            other => {
                                self.events.push_back(
                                    HostSurfaceEvent { surface: newest_surface, kind: other },
                                );
                            },
                        }
                    },
                    None => {},
                }
                self.events.push_back(
                    HostSurfaceEvent {
                        surface,
                        kind: HostSurfaceEventKind::TreeSnapshot(snapshot),
                    },
                );
            },
            kind => {
                self.events.push_back(HostSurfaceEvent { surface, kind });
            },
        }
        assert(self@ =~= queued(before, event@));
    }

    pub fn len(&self) -> (len: usize)
        ensures
            len == self@.len(),
    {
        self.events.len()
    }

    /// Hands out the oldest event.
    pub fn pop(&mut self) -> (event: Option<HostSurfaceEvent>)
        ensures
            match event {
                Some(event) => old(self)@.len() > 0 && event@ == old(self)@[0] && final(self)@
                    == old(self)@.drop_first(),
                None => old(self)@.len() == 0 && final(self)@ == old(self)@,
            },
    {
        let ghost before: Seq<EventModel> = self@;
        let event = self.events.pop_front();
        proof {
            if before.len() > 0 {
                assert(self@ =~= before.drop_first());
            } else {
                assert(self@ =~= before);
            }
        }
        event
    }
}

/// Merging two snapshots keeps every layer that the newer one has, and shows
/// content of the older one only where the newer one has none of its own.
pub proof fn merging_keeps_layers_and_newer_content(previous: SnapshotModel, next: SnapshotModel)
    ensures
        merged_snapshot(previous, next).buffers.len() == next.buffers.len(),
        forall|j: int|
            0 <= j < next.buffers.len() ==> (#[trigger] merged_snapshot(
                previous,
                next,
            ).buffers[j]).layer == next.buffers[j].layer,
        forall|j: int|
            0 <= j < next.buffers.len() && !(next.buffers[j].content is Retained)
                ==> #[trigger] merged_snapshot(previous, next).buffers[j] == next.buffers[j],
{
}

/// Content that was queued and not yet shown survives a newer snapshot that
/// keeps the layer without content of its own.
pub proof fn merging_preserves_unseen_content(
    previous: SnapshotModel,
    next: SnapshotModel,
    i: int,
    j: int,
)
    requires
        0 <= i < previous.buffers.len(),
        0 <= j < next.buffers.len(),
        previous.buffers[i].layer == next.buffers[j].layer,
        !(previous.buffers[i].content is Retained),
        first_retained(next.buffers, j),
    ensures
        !(merged_snapshot(previous, next).buffers[j].content is Retained),
{
    pending_content_exists(previous.buffers, i);
}

proof fn pending_content_exists(buffers: Seq<BufferUpdateModel>, i: int)
    requires
        0 <= i < buffers.len(),
        !(buffers[i].content is Retained),
    ensures
        pending_content(buffers, buffers[i].layer) is Some,
        !(pending_content(buffers, buffers[i].layer)->0 is Retained),
    decreases buffers.len(),
{
    if !(buffers.last().layer == buffers[i].layer && !(buffers.last().content is Retained)) {
        assert(buffers.drop_last()[i] == buffers[i]);
        pending_content_exists(buffers.drop_last(), i);
    }
}

/// An edge pulls the sides that it is named for and no others.
pub proof fn edges_pull_the_sides_they_name()
    ensures
        ({
            let edge = WindowResizeEdge::Top;
            edge.top() && !edge.left() && !edge.right()
        }),
        ({
            let edge = WindowResizeEdge::Bottom;
            edge.bottom() && !edge.left() && !edge.right()
        }),
        ({
            let edge = WindowResizeEdge::Left;
            edge.left() && !edge.top() && !edge.bottom()
        }),
        ({
            let edge = WindowResizeEdge::Right;
            edge.right() && !edge.top() && !edge.bottom()
        }),
        WindowResizeEdge::TopLeft.top() && WindowResizeEdge::TopLeft.left(),
        WindowResizeEdge::TopRight.top() && WindowResizeEdge::TopRight.right(),
        WindowResizeEdge::BottomLeft.bottom() && WindowResizeEdge::BottomLeft.left(),
        WindowResizeEdge::BottomRight.bottom() && WindowResizeEdge::BottomRight.right(),
{
}

/// A client draws nothing outside its window just if the full surface starts
/// where the window does and is as large on both axes.
pub proof fn plain_surfaces_are_as_large_as_their_window(mapped: MappedSurface)
    ensures
        !mapped.overflows() <==> mapped.visual_offset.x.same(Real32 { bits: 0 })
            && mapped.visual_offset.y.same(Real32 { bits: 0 }) && mapped.visual_size.x.same(
            mapped.logical_size.x,
        ) && mapped.visual_size.y.same(mapped.logical_size.y),
{
}

/// A view that fits an image is a nonempty rectangle of finite numbers that
/// starts inside the image and ends inside it on both axes, and every such view
/// fits.
pub proof fn fitting_views_lie_inside_the_image(view: SurfaceContentView, extent: Vec2)
    ensures
        view.fits(extent) <==> {
            &&& view.source_x.finite() && view.source_x.rank() >= 0
            &&& view.source_y.finite() && view.source_y.rank() >= 0
            &&& view.source_width.finite() && view.source_width.rank() > 0
            &&& view.source_height.finite() && view.source_height.rank() > 0
            &&& view.logical_width.finite() && view.logical_width.rank() > 0
            &&& view.logical_height.finite() && view.logical_height.rank() > 0
            &&& !view.source_right.nan() && !extent.x.nan() && view.source_right.rank()
                <= extent.x.rank()
            &&& !view.source_bottom.nan() && !extent.y.nan() && view.source_bottom.rank()
                <= extent.y.rank()
        },
        view.logical_size().x == view.logical_width,
        view.logical_size().y == view.logical_height,
{
}

/// An input rectangle is valid just if it is somewhere and has an extent on both
/// axes.
pub proof fn valid_rectangles_have_an_extent(rectangle: SurfaceInputRect)
    ensures
        rectangle.valid() <==> {
            &&& rectangle.position.x.finite() && rectangle.position.y.finite()
            &&& rectangle.size.x.finite() && rectangle.size.x.rank() > 0
            &&& rectangle.size.y.finite() && rectangle.size.y.rank() > 0
        },
{
}

/// Merging shows what the newer snapshot shows: the root, the geometry, the
/// overlays, the input regions and the sizes of its buffers are the newer ones.
pub proof fn merging_shows_the_newer_snapshot(
    previous: SnapshotModel,
    next: SnapshotModel,
    j: int,
)
    requires
        0 <= j < next.buffers.len(),
    ensures
        ({
            let merged = merged_snapshot(previous, next);
            &&& merged.client_mapped == next.client_mapped
            &&& merged.root == next.root
            &&& merged.window_geometry == next.window_geometry
            &&& merged.overlays == next.overlays
            &&& merged.inputs == next.inputs
            &&& merged.buffers[j].layer == next.buffers[j].layer
            &&& merged.buffers[j].width == next.buffers[j].width
            &&& merged.buffers[j].height == next.buffers[j].height
            &&& merged.buffers[j].extent == next.buffers[j].extent
            &&& merged.buffers[j].opaque == next.buffers[j].opaque
        }),
{
}

/// The content that a merge carries over is the last one that the older snapshot
/// had for the layer; where it had none, nothing is carried over.
pub proof fn merging_carries_the_last_content(
    previous: SnapshotModel,
    next: SnapshotModel,
    i: int,
    j: int,
)
    requires
        0 <= i < previous.buffers.len(),
        0 <= j < next.buffers.len(),
        previous.buffers[i].layer == next.buffers[j].layer,
        !(previous.buffers[i].content is Retained),
        forall|k: int|
            i < k < previous.buffers.len() && (#[trigger] previous.buffers[k]).layer
                == previous.buffers[i].layer ==> previous.buffers[k].content is Retained,
        first_retained(next.buffers, j),
    ensures
        merged_snapshot(previous, next).buffers[j].content == previous.buffers[i].content,
{
    pending_content_is_the_last(previous.buffers, i);
}

proof fn pending_content_is_the_last(buffers: Seq<BufferUpdateModel>, i: int)
    requires
        0 <= i < buffers.len(),
        !(buffers[i].content is Retained),
        forall|k: int|
            i < k < buffers.len() && (#[trigger] buffers[k]).layer == buffers[i].layer
                ==> buffers[k].content is Retained,
    ensures
        pending_content(buffers, buffers[i].layer) == Some(buffers[i].content),
    decreases buffers.len(),
{
    if i < buffers.len() - 1 {
        let earlier = buffers.drop_last();
        assert(buffers[buffers.len() - 1] == buffers.last());
        assert(earlier[i] == buffers[i]);
        assert forall|k: int|
            i < k < earlier.len() && (#[trigger] earlier[k]).layer
                == earlier[i].layer implies earlier[k].content is Retained by {
            assert(buffers[k] == earlier[k]);
        }
        pending_content_is_the_last(earlier, i);
    }
}

/// A layer that the older snapshot had no content for stays without content,
/// and so does every further update of a layer that got some.
pub proof fn merging_makes_up_no_content(previous: SnapshotModel, next: SnapshotModel, j: int)
    requires
        0 <= j < next.buffers.len(),
        next.buffers[j].content is Retained,
        !first_retained(next.buffers, j) || forall|i: int|
            0 <= i < previous.buffers.len() && (#[trigger] previous.buffers[i]).layer
                == next.buffers[j].layer ==> previous.buffers[i].content is Retained,
    ensures
        merged_snapshot(previous, next).buffers[j].content is Retained,
{
    if first_retained(next.buffers, j) {
        no_content_is_pending(previous.buffers, next.buffers[j].layer);
    }
}

proof fn no_content_is_pending(buffers: Seq<BufferUpdateModel>, layer: SurfaceLayerId)
    requires
        forall|i: int|
            0 <= i < buffers.len() && (#[trigger] buffers[i]).layer == layer ==> buffers[i].content
                is Retained,
    ensures
        pending_content(buffers, layer) is None,
    decreases buffers.len(),
{
    if buffers.len() > 0 {
        let earlier = buffers.drop_last();
        assert(buffers[buffers.len() - 1] == buffers.last());
        assert forall|i: int|
            0 <= i < earlier.len() && (#[trigger] earlier[i]).layer
                == layer implies earlier[i].content is Retained by {
            assert(buffers[i] == earlier[i]);
        }
        no_content_is_pending(earlier, layer);
    }
}

/// The older snapshot is left without content for the layers that the newer one
/// has, so that no content is shown twice; its other layers stay as they are.
pub proof fn carried_content_is_taken_out(
    previous: Seq<BufferUpdateModel>,
    next: Seq<BufferUpdateModel>,
    i: int,
)
    requires
        0 <= i < previous.len(),
    ensures
        drained_buffers(previous, next).len() == previous.len(),
        drained_buffers(previous, next)[i].layer == previous[i].layer,
        drained_buffers(previous, next)[i].width == previous[i].width,
        drained_buffers(previous, next)[i].height == previous[i].height,
        (exists|j: int| 0 <= j < next.len() && (#[trigger] next[j]).layer == previous[i].layer)
            ==> drained_buffers(previous, next)[i].content is Retained,
        (forall|j: int| 0 <= j < next.len() ==> (#[trigger] next[j]).layer != previous[i].layer)
            ==> drained_buffers(previous, next)[i] == previous[i],
{
    if exists|j: int| 0 <= j < next.len() && (#[trigger] next[j]).layer == previous[i].layer {
        let j = choose|j: int| 0 <= j < next.len() && (#[trigger] next[j]).layer
            == previous[i].layer;
        assert(next[j].layer == previous[i].layer);
    }
}

/// A queued event comes last and changes no event before it. It joins the newest
/// event just if both are snapshots of one surface; no other event is merged.
pub proof fn queues_keep_their_order(queue: Seq<EventModel>, event: EventModel, i: int)
    requires
        0 <= i < queue.len(),
    ensures
        ({
            let after = queued(queue, event);
            let joins = event.kind is TreeSnapshot && queue.last().kind is TreeSnapshot
                && queue.last().surface == event.surface;
            &&& after.last().surface == event.surface
            &&& after.len() == (if joins {
                queue.len()
            } else {
                queue.len() + 1
            })
            &&& !joins ==> after.last() == event && after[i] == queue[i]
            &&& joins && i < queue.len() - 1 ==> after[i] == queue[i]
            &&& joins ==> (after.last().kind matches EventKindModel::TreeSnapshot(merged) && merged
                == merged_snapshot(
                queue.last().kind->TreeSnapshot_0,
                event.kind->TreeSnapshot_0,
            ))
        }),
        queued(Seq::empty(), event) == seq![event],
{
}

} // verus!
