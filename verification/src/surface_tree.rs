//! The tree of surfaces below one root: which buffers they hold, where they
//! stand, and what of them is shown.
//!
//! Surfaces are named by the integers that their protocol objects go by. The
//! tree lists them from the bottom of the stack to its top, so that a child can
//! stand before or after its parent.

use std::collections::HashMap;
use vstd::prelude::*;

use crate::shm::{checked_buffer_scale, SurfaceBufferMetadata};
use crate::surface::{SurfaceContentView, SurfaceLayerId};
use crate::table::table_keys;

verus! {

broadcast use vstd::std_specs::hash::group_hash_axioms;

/// A surface in the tree, and where it stands relative to the root.
#[derive(Clone, Copy, Debug, PartialEq, Eq, Structural)]
pub struct TreeNode {
    pub id: u64,
    pub parent: Option<u64>,
    pub x: i32,
    pub y: i32,
}

/// A distance between two surfaces, in logical units.
#[derive(Clone, Copy, Debug, PartialEq, Eq, Structural)]
pub struct SurfaceOffset {
    pub x: i32,
    pub y: i32,
}

/// How far a surface stands from its parent: as far as a subsurface was moved,
/// and not at all in any other role.
pub fn surface_offset(subsurface: bool, location: SurfaceOffset) -> (offset: SurfaceOffset)
    ensures
        offset == (if subsurface {
            location
        } else {
            SurfaceOffset { x: 0, y: 0 }
        }),
{
    if subsurface {
        location
    } else {
        SurfaceOffset { x: 0, y: 0 }
    }
}

/// Where a walk through the tree stands: the surface whose children come next,
/// and its distance from the root.
#[derive(Clone, Copy, Debug, PartialEq, Eq, Structural)]
pub struct TraversalContext {
    pub x: i32,
    pub y: i32,
    pub parent: Option<u64>,
}

impl Default for TraversalContext {
    /// The start of a walk, above the root.
    fn default() -> (context: Self)
        ensures
            context == TraversalContext::start(),
    {
        TraversalContext { x: 0, y: 0, parent: None }
    }
}

impl TraversalContext {
    /// The start of a walk, above the root.
    pub open spec fn start() -> TraversalContext {
        TraversalContext { x: 0, y: 0, parent: None }
    }

    /// A surface at `offset` from here has a place.
    pub open spec fn reaches(self, offset: SurfaceOffset) -> bool {
        i32::MIN <= self.x + offset.x <= i32::MAX && i32::MIN <= self.y + offset.y <= i32::MAX
    }

    /// The node of a surface at `offset` from here.
    pub open spec fn placed(self, id: u64, offset: SurfaceOffset) -> TreeNode {
        TreeNode {
            id,
            parent: self.parent,
            x: (self.x + offset.x) as i32,
            y: (self.y + offset.y) as i32,
        }
    }

    /// The walk among the children of a surface at `offset` from here.
    pub open spec fn entered(self, id: u64, offset: SurfaceOffset) -> TraversalContext {
        TraversalContext {
            x: (self.x + offset.x) as i32,
            y: (self.y + offset.y) as i32,
            parent: Some(id),
        }
    }

    /// The walk after it went down a path of surfaces.
    pub open spec fn walked(self, path: Seq<(u64, SurfaceOffset)>) -> TraversalContext
        decreases path.len(),
    {
        if path.len() == 0 {
            self
        } else {
            self.walked(path.drop_last()).entered(path.last().0, path.last().1)
        }
    }

    /// Every surface on a path has a place.
    pub open spec fn reaches_all(self, path: Seq<(u64, SurfaceOffset)>) -> bool {
        forall|i: int|
            0 <= i < path.len() ==> self.walked(#[trigger] path.take(i)).reaches(path[i].1)
    }

    /// The node of a surface at `offset` from here; none where its distance
    /// from the root is beyond what a coordinate holds.
    pub fn place(self, id: u64, offset: SurfaceOffset) -> (node: Option<TreeNode>)
        ensures
            node == (if self.reaches(offset) {
                Some(self.placed(id, offset))
            } else {
                None
            }),
    {
        match (self.x.checked_add(offset.x), self.y.checked_add(offset.y)) {
            (Some(x), Some(y)) => Some(TreeNode { id, parent: self.parent, x, y }),
            _ => None,
        }
    }

    /// Goes on to the children of a surface at `offset` from here; none where
    /// that surface has no place.
    pub fn enter(self, id: u64, offset: SurfaceOffset) -> (context: Option<TraversalContext>)
        ensures
            context == (if self.reaches(offset) {
                Some(self.entered(id, offset))
            } else {
                None
            }),
    {
        match self.place(id, offset) {
            Some(node) => Some(TraversalContext { x: node.x, y: node.y, parent: Some(id) }),
            None => None,
        }
    }
}

/// The sums of the offsets on a path.
pub open spec fn total_offset(path: Seq<(u64, SurfaceOffset)>) -> (int, int)
    decreases path.len(),
{
    if path.len() == 0 {
        (0, 0)
    } else {
        let (x, y) = total_offset(path.drop_last());
        (x + path.last().1.x, y + path.last().1.y)
    }
}

/// Where a client says its window is within the root surface, in logical units.
#[derive(Clone, Copy, Debug, PartialEq, Eq, Structural)]
pub struct RootGeometry {
    pub x: i32,
    pub y: i32,
    pub width: i32,
    pub height: i32,
}

/// What is kept of a surface's buffer.
#[derive(Clone, Copy, Debug, PartialEq, Eq, Structural)]
pub struct CachedSurfaceBuffer {
    pub layer: SurfaceLayerId,
    pub metadata: Option<SurfaceBufferMetadata>,
    pub view: Option<SurfaceContentView>,
    pub opaque: bool,
    pub client_mapped: bool,
}

impl CachedSurfaceBuffer {
    /// A layer that has had no buffer.
    pub open spec fn fresh(layer: u64) -> CachedSurfaceBuffer {
        CachedSurfaceBuffer {
            layer: SurfaceLayerId(layer),
            metadata: None,
            view: None,
            opaque: false,
            client_mapped: false,
        }
    }
}

/// A buffer that was copied, and what is shown of it.
#[derive(Debug)]
pub struct ImportedBuffer {
    pub metadata: SurfaceBufferMetadata,
    pub view: SurfaceContentView,
    pub pixels: Vec<u8>,
    pub opaque: bool,
}

/// What a commit does to a surface's buffer.
#[derive(Debug)]
pub enum Assignment {
    /// A new buffer, or none if it could not be imported.
    NewBuffer(Option<ImportedBuffer>),
    Removed,
    /// The buffer stays. `view` is what is to be shown of it now, if that could
    /// be worked out.
    Retained { scale: i32, normal_transform: bool, view: Option<SurfaceContentView> },
}

/// One surface of a committed tree.
#[derive(Debug)]
pub struct CommittedNode {
    pub node: TreeNode,
    pub assignment: Assignment,
    /// The window geometry committed with the surface; only that of a surface
    /// without a parent counts.
    pub geometry: Option<RootGeometry>,
}

/// One surface of a snapshot that stands over the root.
#[derive(Clone, Copy, Debug, PartialEq, Eq, Structural)]
pub struct OverlayPlacement {
    pub layer: SurfaceLayerId,
    pub x: i32,
    pub y: i32,
    pub view: SurfaceContentView,
}

/// The root of a snapshot.
#[derive(Clone, Copy, Debug, PartialEq, Eq, Structural)]
pub struct RootPlacement {
    pub layer: SurfaceLayerId,
    pub view: SurfaceContentView,
}

/// A buffer that is part of a snapshot; its pixels where they are new.
#[derive(Debug)]
pub struct LayerUpdate {
    pub layer: SurfaceLayerId,
    pub width: u32,
    pub height: u32,
    pub pixels: Option<Vec<u8>>,
    pub opaque: bool,
}

/// What a [`LayerUpdate`] holds.
#[verifier::ext_equal]
pub struct LayerUpdateModel {
    pub layer: SurfaceLayerId,
    pub width: u32,
    pub height: u32,
    pub pixels: Option<Seq<u8>>,
    pub opaque: bool,
}

impl View for LayerUpdate {
    type V = LayerUpdateModel;

    open spec fn view(&self) -> LayerUpdateModel {
        LayerUpdateModel {
            layer: self.layer,
            width: self.width,
            height: self.height,
            pixels: match self.pixels {
                Some(pixels) => Some(pixels@),
                None => None,
            },
            opaque: self.opaque,
        }
    }
}

/// What is shown of a tree.
#[derive(Debug)]
pub struct TreeSnapshot {
    pub client_mapped: bool,
    /// The root, with the whole view of its buffer.
    pub root: Option<RootPlacement>,
    /// The geometry that the root is to be cropped to.
    pub geometry: Option<RootGeometry>,
    pub overlays: Vec<OverlayPlacement>,
    pub buffers: Vec<LayerUpdate>,
}

/// No surface is listed twice.
pub open spec fn distinct(nodes: Seq<TreeNode>) -> bool {
    forall|i: int, j: int|
        0 <= i < j < nodes.len() ==> (#[trigger] nodes[i]).id != (#[trigger] nodes[j]).id
}

/// One of `nodes` is the surface `id`.
pub open spec fn lists(nodes: Seq<TreeNode>, id: u64) -> bool {
    exists|i: int| 0 <= i < nodes.len() && (#[trigger] nodes[i]).id == id
}

/// The parent of the first of `nodes` that is the surface `id`.
pub open spec fn parent_in(nodes: Seq<TreeNode>, id: u64) -> Option<u64>
    decreases nodes.len(),
{
    if nodes.len() == 0 {
        None
    } else if nodes[0].id == id {
        nodes[0].parent
    } else {
        parent_in(nodes.drop_first(), id)
    }
}

/// The surface `steps` generations above `id`.
pub open spec fn ancestor(nodes: Seq<TreeNode>, id: u64, steps: nat) -> Option<u64>
    decreases steps,
{
    if steps == 0 {
        Some(id)
    } else {
        match parent_in(nodes, id) {
            Some(parent) => ancestor(nodes, parent, (steps - 1) as nat),
            None => None,
        }
    }
}

/// `id` is `above` or stands below it.
pub open spec fn descends(nodes: Seq<TreeNode>, id: u64, above: u64) -> bool {
    exists|steps: nat| #[trigger] ancestor(nodes, id, steps) == Some(above)
}

/// The nodes of a committed tree.
pub open spec fn nodes_of(committed: Seq<CommittedNode>) -> Seq<TreeNode> {
    Seq::new(committed.len(), |i: int| committed[i].node)
}

/// The window geometry of a committed tree: that of its surface without a
/// parent, the last if there are several.
pub open spec fn committed_geometry(committed: Seq<CommittedNode>) -> Option<RootGeometry>
    decreases committed.len(),
{
    if committed.len() == 0 {
        None
    } else if committed.last().node.parent is None {
        committed.last().geometry
    } else {
        committed_geometry(committed.drop_last())
    }
}

/// The nodes that stand over the root.
pub open spec fn above_root(nodes: Seq<TreeNode>, root: u64) -> Seq<TreeNode>
    decreases nodes.len(),
{
    if nodes.len() == 0 {
        Seq::empty()
    } else if nodes[0].id == root {
        nodes.drop_first()
    } else {
        above_root(nodes.drop_first(), root)
    }
}

/// A tree of surfaces.
#[verifier::ext_equal]
pub struct TreeModel {
    pub buffers: Map<u64, CachedSurfaceBuffer>,
    pub nodes: Seq<TreeNode>,
    pub root_geometry: Option<RootGeometry>,
    pub next_layer: Option<u64>,
}

impl TreeModel {
    /// Surfaces are listed once, only listed surfaces hold buffers, and no
    /// layer was handed out twice.
    pub open spec fn wf(self) -> bool {
        &&& distinct(self.nodes)
        &&& forall|id: u64| #[trigger] self.buffers.contains_key(id) ==> lists(self.nodes, id)
        &&& self.layers_wf()
    }

    /// No two surfaces share a layer, and layers to come are new.
    pub open spec fn layers_wf(self) -> bool {
        &&& forall|first: u64, second: u64|
            #![trigger self.buffers.contains_key(first), self.buffers.contains_key(second)]
            self.buffers.contains_key(first) && self.buffers.contains_key(second) && first != second
                ==> self.buffers[first].layer != self.buffers[second].layer
        &&& forall|id: u64| #[trigger]
            self.buffers.contains_key(id) && self.next_layer is Some ==> self.buffers[id].layer.0
                < self.next_layer->0
    }

    /// The surface has a layer, unless layers have run out.
    pub open spec fn layer_ensured(self, id: u64) -> TreeModel {
        if self.buffers.contains_key(id) {
            self
        } else {
            match self.next_layer {
                Some(layer) => TreeModel {
                    buffers: self.buffers.insert(id, CachedSurfaceBuffer::fresh(layer)),
                    next_layer: if layer == u64::MAX {
                        None
                    } else {
                        Some((layer + 1) as u64)
                    },
                    ..self
                },
                None => self,
            }
        }
    }

    /// The metadata that a retained buffer has under a new scale and transform.
    pub open spec fn rescaled(self, id: u64, scale: i32, normal_transform: bool) -> Option<
        SurfaceBufferMetadata,
    > {
        if self.buffers.contains_key(id) && self.buffers[id].metadata is Some && scale > 0 {
            Some(
                SurfaceBufferMetadata {
                    scale: scale as u32,
                    normal_transform,
                    ..self.buffers[id].metadata->0
                },
            )
        } else {
            None
        }
    }

    /// What a commit makes of the buffer of a surface that has a layer.
    pub open spec fn assigned(self, id: u64, assignment: Assignment) -> CachedSurfaceBuffer {
        let cached = self.buffers[id];
        match assignment {
            Assignment::NewBuffer(Some(imported)) => CachedSurfaceBuffer {
                metadata: Some(imported.metadata),
                view: Some(imported.view),
                opaque: imported.opaque,
                client_mapped: true,
                ..cached
            },
            Assignment::NewBuffer(None) => CachedSurfaceBuffer {
                metadata: None,
                view: None,
                client_mapped: true,
                ..cached
            },
            Assignment::Removed => CachedSurfaceBuffer {
                metadata: None,
                view: None,
                client_mapped: false,
                ..cached
            },
            Assignment::Retained { scale, normal_transform, view } => {
                let metadata = self.rescaled(id, scale, normal_transform);
                if metadata is Some && view is Some {
                    CachedSurfaceBuffer { metadata, view, ..cached }
                } else {
                    cached
                }
            },
        }
    }

    /// The tree after the commit of one of its surfaces.
    pub open spec fn commit_applied(self, commit: CommittedNode) -> TreeModel {
        let ensured = self.layer_ensured(commit.node.id);
        if ensured.buffers.contains_key(commit.node.id) {
            TreeModel {
                buffers: ensured.buffers.insert(
                    commit.node.id,
                    ensured.assigned(commit.node.id, commit.assignment),
                ),
                ..ensured
            }
        } else {
            ensured
        }
    }

    /// The tree after the commits of several of its surfaces, in order.
    pub open spec fn commits_applied(self, committed: Seq<CommittedNode>) -> TreeModel
        decreases committed.len(),
    {
        if committed.len() == 0 {
            self
        } else {
            self.commits_applied(committed.drop_last()).commit_applied(committed.last())
        }
    }

    /// The tree with new nodes, and without the buffers of surfaces that left.
    pub open spec fn relisted(self, nodes: Seq<TreeNode>) -> TreeModel {
        TreeModel {
            buffers: self.buffers.restrict(Set::new(|id: u64| lists(nodes, id))),
            nodes,
            ..self
        }
    }

    /// The tree once a committed tree was taken in.
    pub open spec fn updated(self, committed: Seq<CommittedNode>) -> TreeModel {
        TreeModel {
            root_geometry: committed_geometry(committed),
            ..self.relisted(nodes_of(committed)).commits_applied(committed)
        }
    }

    /// The tree without a surface and all that stand below it.
    pub open spec fn pruned(self, removed: u64) -> TreeModel {
        TreeModel {
            buffers: self.buffers.remove_keys(
                Set::new(|id: u64| descends(self.nodes, id, removed)),
            ),
            nodes: self.nodes.filter(|node: TreeNode| !descends(self.nodes, node.id, removed)),
            ..self
        }
    }

    /// The tree without several surfaces, taken out one after the other.
    pub open spec fn all_pruned(self, removed: Seq<u64>) -> TreeModel
        decreases removed.len(),
    {
        if removed.len() == 0 {
            self
        } else {
            self.all_pruned(removed.drop_last()).pruned(removed.last())
        }
    }

    /// The surface holds a buffer, as far as its client is concerned.
    pub open spec fn mapped(self, id: u64) -> bool {
        self.buffers.contains_key(id) && self.buffers[id].client_mapped
    }

    /// There is something to show of the surface.
    pub open spec fn shown(self, id: u64) -> bool {
        self.buffers.contains_key(id) && self.buffers[id].metadata is Some && self.buffers[id].view
            is Some
    }

    /// The surface and its ancestors, up to the given number of them, are
    /// mapped.
    pub open spec fn mapped_upward(self, id: u64, generations: nat) -> bool
        decreases generations,
    {
        if generations == 0 {
            true
        } else if !self.mapped(id) {
            false
        } else {
            match parent_in(self.nodes, id) {
                Some(parent) => self.mapped_upward(parent, (generations - 1) as nat),
                None => true,
            }
        }
    }

    /// The protocol allows the surface to be seen.
    pub open spec fn visible(self, id: u64) -> bool {
        self.mapped_upward(id, self.nodes.len() + 1)
    }

    /// Where the root is shown.
    pub open spec fn root_placement(self, root: u64) -> Option<RootPlacement> {
        if self.buffers.contains_key(root) && self.buffers[root].view is Some {
            Some(
                RootPlacement {
                    layer: self.buffers[root].layer,
                    view: self.buffers[root].view->0,
                },
            )
        } else {
            None
        }
    }

    /// The surfaces of `nodes` that are shown, in order.
    pub open spec fn overlays(self, nodes: Seq<TreeNode>) -> Seq<OverlayPlacement>
        decreases nodes.len(),
    {
        if nodes.len() == 0 {
            Seq::empty()
        } else {
            let node = nodes.last();
            let below = self.overlays(nodes.drop_last());
            if self.visible(node.id) && self.buffers.contains_key(node.id)
                && self.buffers[node.id].view is Some {
                below.push(
                    OverlayPlacement {
                        layer: self.buffers[node.id].layer,
                        x: node.x,
                        y: node.y,
                        view: self.buffers[node.id].view->0,
                    },
                )
            } else {
                below
            }
        }
    }

    /// The buffer of a surface that is shown.
    pub open spec fn layer_update(self, id: u64, pixels: Map<u64, Seq<u8>>) -> LayerUpdateModel {
        LayerUpdateModel {
            layer: self.buffers[id].layer,
            width: self.buffers[id].metadata->0.width,
            height: self.buffers[id].metadata->0.height,
            pixels: if pixels.contains_key(id) {
                Some(pixels[id])
            } else {
                None
            },
            opaque: self.buffers[id].opaque,
        }
    }

    /// `updates` holds the buffers of the shown surfaces among `nodes`, in the
    /// order of their layers.
    pub open spec fn lists_updates(
        self,
        updates: Seq<LayerUpdate>,
        nodes: Seq<TreeNode>,
        pixels: Map<u64, Seq<u8>>,
    ) -> bool {
        &&& forall|i: int, j: int|
            0 <= i < j < updates.len() ==> (#[trigger] updates[i]).layer.0 < (
            #[trigger] updates[j]).layer.0
        &&& forall|i: int|
            0 <= i < updates.len() ==> self.is_update_of_some((#[trigger] updates[i])@, nodes, pixels)
        &&& forall|k: int|
            0 <= k < nodes.len() && self.shown((#[trigger] nodes[k]).id) ==> has_update(
                updates,
                self.layer_update(nodes[k].id, pixels),
            )
    }

    /// `update` is the buffer of one of `nodes` that is shown.
    pub open spec fn is_update_of_some(
        self,
        update: LayerUpdateModel,
        nodes: Seq<TreeNode>,
        pixels: Map<u64, Seq<u8>>,
    ) -> bool {
        exists|k: int|
            0 <= k < nodes.len() && self.shown((#[trigger] nodes[k]).id) && update
                == self.layer_update(nodes[k].id, pixels)
    }

    /// `snapshot` shows this tree below `root`.
    pub open spec fn shows(
        self,
        snapshot: TreeSnapshot,
        root: u64,
        pixels: Map<u64, Seq<u8>>,
    ) -> bool {
        &&& snapshot.client_mapped == self.mapped(root)
        &&& snapshot.root == self.root_placement(root)
        &&& snapshot.geometry == self.root_geometry
        &&& snapshot.overlays@ == self.overlays(above_root(self.nodes, root))
        &&& self.lists_updates(snapshot.buffers@, self.nodes, pixels)
    }
}

/// One of `updates` holds `model`.
pub open spec fn has_update(updates: Seq<LayerUpdate>, model: LayerUpdateModel) -> bool {
    exists|i: int| 0 <= i < updates.len() && (#[trigger] updates[i])@ == model
}

/// The pixels that the commits of a tree bring, by surface. A surface without
/// a layer brings none.
pub open spec fn new_pixels(tree: TreeModel, committed: Seq<CommittedNode>) -> Map<u64, Seq<u8>>
    decreases committed.len(),
{
    if committed.len() == 0 {
        Map::empty()
    } else {
        let earlier = new_pixels(tree, committed.drop_last());
        let commit = committed.last();
        let before = tree.commits_applied(committed.drop_last());
        match commit.assignment {
            Assignment::NewBuffer(Some(imported)) => if before.layer_ensured(
                commit.node.id,
            ).buffers.contains_key(commit.node.id) {
                earlier.insert(commit.node.id, imported.pixels@)
            } else {
                earlier
            },
            _ => earlier,
        }
    }
}

/// Pixels by surface.
pub open spec fn pixel_model(pixels: Map<u64, Vec<u8>>) -> Map<u64, Seq<u8>> {
    pixels.map_values(|bytes: Vec<u8>| bytes@)
}

/// The tree of surfaces below one root.
pub struct SurfaceTreeState {
    buffers: HashMap<u64, CachedSurfaceBuffer>,
    nodes: Vec<TreeNode>,
    root_geometry: Option<RootGeometry>,
    next_layer: Option<u64>,
}

impl View for SurfaceTreeState {
    type V = TreeModel;

    closed spec fn view(&self) -> TreeModel {
        TreeModel {
            buffers: self.buffers@,
            nodes: self.nodes@,
            root_geometry: self.root_geometry,
            next_layer: self.next_layer,
        }
    }
}

fn find_parent(nodes: &Vec<TreeNode>, id: u64) -> (parent: Option<u64>)
    ensures
        parent == parent_in(nodes@, id),
{
    let mut i: usize = 0;
    assert(nodes@.skip(0) =~= nodes@);
    while i < nodes.len()
        invariant
            i <= nodes@.len(),
            parent_in(nodes@, id) == parent_in(nodes@.skip(i as int), id),
        decreases nodes@.len() - i,
    {
        assert(nodes@.skip(i as int).drop_first() =~= nodes@.skip(i + 1));
        assert(nodes@.skip(i as int)[0] == nodes@[i as int]);
        if nodes[i].id == id {
            return nodes[i].parent;
        }
        i = i + 1;
    }
    None
}

fn is_listed(nodes: &Vec<TreeNode>, id: u64) -> (listed: bool)
    ensures
        listed == lists(nodes@, id),
{
    let mut i: usize = 0;
    while i < nodes.len()
        invariant
            i <= nodes@.len(),
            forall|k: int| 0 <= k < i ==> (#[trigger] nodes@[k]).id != id,
        decreases nodes@.len() - i,
    {
        if nodes[i].id == id {
            return true;
        }
        i = i + 1;
    }
    false
}

/// `id` is one of the first `count` nodes and stays when `removed` goes.
spec fn is_kept(nodes: Seq<TreeNode>, id: u64, count: int, removed: u64) -> bool {
    &&& !descends(nodes, id, removed)
    &&& exists|k: int| 0 <= k < count && (#[trigger] nodes[k]).id == id
}

/// `id` is `removed`, or one of the nodes that are marked.
spec fn is_marked(nodes: Seq<TreeNode>, marks: Seq<bool>, removed: u64, id: u64) -> bool {
    id == removed || exists|j: int| 0 <= j < nodes.len() && (#[trigger] nodes[j]).id == id && marks[j]
}

/// How many nodes are not marked.
spec fn unmarked(marks: Seq<bool>) -> nat
    decreases marks.len(),
{
    if marks.len() == 0 {
        0
    } else {
        unmarked(marks.drop_last()) + if marks.last() {
            0nat
        } else {
            1nat
        }
    }
}

proof fn marking_leaves_fewer(marks: Seq<bool>, i: int)
    requires
        0 <= i < marks.len(),
        !marks[i],
    ensures
        unmarked(marks.update(i, true)) == unmarked(marks) - 1,
    decreases marks.len(),
{
    if i == marks.len() - 1 {
        assert(marks.update(i, true).drop_last() =~= marks.drop_last());
    } else {
        assert(marks.update(i, true).drop_last() =~= marks.drop_last().update(i, true));
        marking_leaves_fewer(marks.drop_last(), i);
    }
}

proof fn parents_are_found(nodes: Seq<TreeNode>, id: u64)
    requires
        distinct(nodes),
    ensures
        match parent_in(nodes, id) {
            Some(parent) => exists|j: int|
                0 <= j < nodes.len() && (#[trigger] nodes[j]).id == id && nodes[j].parent == Some(parent),
            None => true,
        },
        forall|j: int|
            0 <= j < nodes.len() && (#[trigger] nodes[j]).id == id ==> parent_in(nodes, id)
                == nodes[j].parent,
    decreases nodes.len(),
{
    if nodes.len() > 0 {
        if nodes[0].id != id {
            let rest = nodes.drop_first();
            assert forall|i: int, j: int| 0 <= i < j < rest.len() implies (#[trigger] rest[i]).id != (
            #[trigger] rest[j]).id by {
                assert(nodes[i + 1].id != nodes[j + 1].id);
            }
            parents_are_found(rest, id);
            assert forall|j: int| 0 <= j < nodes.len() && (#[trigger] nodes[j]).id == id implies parent_in(
                nodes,
                id,
            ) == nodes[j].parent by {
                assert(rest[j - 1].id == id);
            }
            if let Some(parent) = parent_in(rest, id) {
                let j = choose|j: int|
                    0 <= j < rest.len() && (#[trigger] rest[j]).id == id && rest[j].parent == Some(parent);
                assert(nodes[j + 1].id == id);
            }
        } else {
            assert(nodes[0].id == id);
        }
    }
}

proof fn below_the_parent(nodes: Seq<TreeNode>, id: u64, parent: u64, above: u64)
    requires
        parent_in(nodes, id) == Some(parent),
        descends(nodes, parent, above),
    ensures
        descends(nodes, id, above),
{
    let steps = choose|steps: nat| #[trigger] ancestor(nodes, parent, steps) == Some(above);
    assert(ancestor(nodes, id, steps + 1) == Some(above));
}

proof fn descendants_are_marked(nodes: Seq<TreeNode>, marks: Seq<bool>, removed: u64, id: u64, steps: nat)
    requires
        distinct(nodes),
        marks.len() == nodes.len(),
        forall|j: int|
            0 <= j < nodes.len() && (#[trigger] nodes[j]).parent is Some && is_marked(
                nodes,
                marks,
                removed,
                nodes[j].parent->0,
            ) ==> marks[j],
        ancestor(nodes, id, steps) == Some(removed),
    ensures
        is_marked(nodes, marks, removed, id),
    decreases steps,
{
    if steps > 0 {
        parents_are_found(nodes, id);
        let parent = parent_in(nodes, id)->0;
        descendants_are_marked(nodes, marks, removed, parent, (steps - 1) as nat);
    }
}

fn marked(nodes: &Vec<TreeNode>, marks: &Vec<bool>, removed: u64, id: u64) -> (marked: bool)
    requires
        marks@.len() == nodes@.len(),
    ensures
        marked == is_marked(nodes@, marks@, removed, id),
{
    if id == removed {
        return true;
    }
    let mut i: usize = 0;
    while i < nodes.len()
        invariant
            i <= nodes@.len(),
            marks@.len() == nodes@.len(),
            forall|k: int| 0 <= k < i ==> !((#[trigger] nodes@[k]).id == id && marks@[k]),
        decreases nodes@.len() - i,
    {
        if nodes[i].id == id && marks[i] {
            return true;
        }
        i = i + 1;
    }
    false
}

/// Marks the nodes that are `removed` or stand below it.
fn mark_descendants(nodes: &Vec<TreeNode>, removed: u64) -> (marks: Vec<bool>)
    requires
        distinct(nodes@),
    ensures
        marks@.len() == nodes@.len(),
        forall|j: int|
            0 <= j < marks@.len() ==> #[trigger] marks@[j] == descends(
                nodes@,
                nodes@[j].id,
                removed,
            ),
{
    let mut marks: Vec<bool> = Vec::new();
    let count: usize = nodes.len();
    let mut n: usize = 0;
    while n < count
        invariant
            n <= count,
            count == nodes@.len(),
            marks@.len() == n,
            forall|j: int|
                0 <= j < n && #[trigger] marks@[j] ==> descends(nodes@, nodes@[j].id, removed),
            forall|j: int| 0 <= j < n && (#[trigger] nodes@[j]).id == removed ==> marks@[j],
        decreases count - n,
    {
        let itself = nodes[n].id == removed;
        if itself {
            assert(ancestor(nodes@, nodes@[n as int].id, 0) == Some(removed));
        }
        marks.push(itself);
        n = n + 1;
    }
    loop
        invariant_except_break
            count == nodes@.len(),
            marks@.len() == count,
            distinct(nodes@),
            forall|j: int|
                0 <= j < count && #[trigger] marks@[j] ==> descends(nodes@, nodes@[j].id, removed),
            forall|j: int| 0 <= j < count && (#[trigger] nodes@[j]).id == removed ==> marks@[j],
        ensures
            marks@.len() == nodes@.len(),
            distinct(nodes@),
            forall|j: int|
                0 <= j < nodes@.len() && #[trigger] marks@[j] ==> descends(
                    nodes@,
                    nodes@[j].id,
                    removed,
                ),
            forall|j: int| 0 <= j < nodes@.len() && (#[trigger] nodes@[j]).id == removed ==> marks@[j],
            forall|j: int|
                0 <= j < nodes@.len() && (#[trigger] nodes@[j]).parent is Some && is_marked(
                    nodes@,
                    marks@,
                    removed,
                    nodes@[j].parent->0,
                ) ==> marks@[j],
        decreases unmarked(marks@),
    {
        let ghost start = marks@;
        let mut changed = false;
        let mut i: usize = 0;
        while i < count
            invariant
                i <= count,
                count == nodes@.len(),
                marks@.len() == count,
                distinct(nodes@),
                changed ==> unmarked(marks@) < unmarked(start),
                !changed ==> marks@ == start,
                forall|j: int|
                    0 <= j < count && #[trigger] marks@[j] ==> descends(
                        nodes@,
                        nodes@[j].id,
                        removed,
                    ),
                forall|j: int| 0 <= j < count && (#[trigger] nodes@[j]).id == removed ==> marks@[j],
                !changed ==> forall|j: int|
                    0 <= j < i && (#[trigger] nodes@[j]).parent is Some && is_marked(
                        nodes@,
                        start,
                        removed,
                        nodes@[j].parent->0,
                    ) ==> start[j],
            decreases count - i,
        {
            if let Some(parent) = nodes[i].parent {
                if !marks[i] && marked(nodes, &marks, removed, parent) {
                    proof {
                        parents_are_found(nodes@, nodes@[i as int].id);
                        if parent == removed {
                            assert(ancestor(nodes@, parent, 0) == Some(removed));
                        } else {
                            let j = choose|j: int|
                                0 <= j < nodes@.len() && (#[trigger] nodes@[j]).id == parent && marks@[j];
                            assert(marks@[j]);
                        }
                        below_the_parent(nodes@, nodes@[i as int].id, parent, removed);
                        marking_leaves_fewer(marks@, i as int);
                    }
                    marks.set(i, true);
                    changed = true;
                }
            }
            i = i + 1;
        }
        if !changed {
            break;
        }
    }
    proof {
        assert forall|j: int| 0 <= j < marks@.len() implies #[trigger] marks@[j] == descends(
            nodes@,
            nodes@[j].id,
            removed,
        ) by {
            if descends(nodes@, nodes@[j].id, removed) {
                let steps = choose|steps: nat| #[trigger]
                    ancestor(nodes@, nodes@[j].id, steps) == Some(removed);
                descendants_are_marked(nodes@, marks@, removed, nodes@[j].id, steps);
                if nodes@[j].id != removed {
                    let k = choose|k: int|
                        0 <= k < nodes@.len() && (#[trigger] nodes@[k]).id == nodes@[j].id && marks@[k];
                    assert(k == j);
                }
            }
        }
    }
    marks
}

impl SurfaceTreeState {
    /// An empty tree.
    pub fn new() -> (tree: Self)
        ensures
            tree@.buffers == Map::<u64, CachedSurfaceBuffer>::empty(),
            tree@.nodes == Seq::<TreeNode>::empty(),
            tree@.root_geometry is None,
            tree@.next_layer == Some(1u64),
            tree@.wf(),
    {
        SurfaceTreeState {
            buffers: HashMap::new(),
            nodes: Vec::new(),
            root_geometry: None,
            next_layer: Some(1),
        }
    }

    /// The window geometry that was committed last.
    pub fn root_geometry(&self) -> (geometry: Option<RootGeometry>)
        ensures
            geometry == self@.root_geometry,
    {
        self.root_geometry
    }

    /// Whether the client gave `root` a buffer.
    pub fn client_mapped(&self, root: u64) -> (mapped: bool)
        ensures
            mapped == self@.mapped(root),
    {
        match self.buffers.get(&root) {
            Some(buffer) => buffer.client_mapped,
            None => false,
        }
    }

    /// Whether there is something to show of `root`.
    pub fn displayable(&self, root: u64) -> (displayable: bool)
        ensures
            displayable == self@.shown(root),
    {
        match self.buffers.get(&root) {
            Some(buffer) => buffer.metadata.is_some() && buffer.view.is_some(),
            None => false,
        }
    }

    /// The metadata under which a retained buffer is to be viewed; none if the
    /// surface has no buffer or the scale is not positive.
    pub fn retained_metadata(&self, id: u64, scale: i32, normal_transform: bool) -> (metadata: Option<
        SurfaceBufferMetadata,
    >)
        ensures
            metadata == self@.rescaled(id, scale, normal_transform),
    {
        let previous = match self.buffers.get(&id) {
            Some(buffer) => match buffer.metadata {
                Some(metadata) => metadata,
                None => {
                    return None;
                },
            },
            None => {
                return None;
            },
        };
        match checked_buffer_scale(scale) {
            Ok(scale) => Some(
                SurfaceBufferMetadata {
                    width: previous.width,
                    height: previous.height,
                    scale,
                    normal_transform,
                },
            ),
            Err(_) => None,
        }
    }

    fn layer_for(&mut self, id: u64) -> (cached: Option<CachedSurfaceBuffer>)
        ensures
            final(self)@ == old(self)@.layer_ensured(id),
            old(self)@.layers_wf() ==> final(self)@.layers_wf(),
            match cached {
                Some(cached) => final(self)@.buffers.contains_key(id) && cached
                    == final(self)@.buffers[id],
                None => !final(self)@.buffers.contains_key(id),
            },
    {
        if let Some(buffer) = self.buffers.get(&id) {
            return Some(*buffer);
        }
        let ghost before = self@;
        match self.next_layer {
            Some(layer) => {
                self.next_layer = layer.checked_add(1);
                let fresh = CachedSurfaceBuffer {
                    layer: SurfaceLayerId::new(layer),
                    metadata: None,
                    view: None,
                    opaque: false,
                    client_mapped: false,
                };
                self.buffers.insert(id, fresh);
                assert(self@ =~= before.layer_ensured(id));
                Some(fresh)
            },
            None => None,
        }
    }

    fn apply_commit(&mut self, commit: CommittedNode, pixels: &mut HashMap<u64, Vec<u8>>)
        requires
            old(self)@.wf(),
            lists(old(self)@.nodes, commit.node.id),
        ensures
            final(self)@ == old(self)@.commit_applied(commit),
            final(self)@.wf(),
            pixel_model(final(pixels)@) == (match commit.assignment {
                Assignment::NewBuffer(Some(imported)) => if old(self)@.layer_ensured(
                    commit.node.id,
                ).buffers.contains_key(commit.node.id) {
                    pixel_model(old(pixels)@).insert(commit.node.id, imported.pixels@)
                } else {
                    pixel_model(old(pixels)@)
                },
                _ => pixel_model(old(pixels)@),
            }),
    {
        let ghost before = self@;
        let ghost incoming = commit;
        let CommittedNode { node, assignment, geometry: _ } = commit;
        let id: u64 = node.id;
        let cached = match self.layer_for(id) {
            Some(cached) => cached,
            None => {
                return;
            },
        };
        let ghost ensured = self@;
        match assignment {
            Assignment::NewBuffer(imported) => {
                match imported {
                    Some(imported) => {
                        let ImportedBuffer { metadata, view, pixels: bytes, opaque } = imported;
                        self.buffers.insert(
                            id,
                            CachedSurfaceBuffer {
                                layer: cached.layer,
                                metadata: Some(metadata),
                                view: Some(view),
                                opaque,
                                client_mapped: true,
                            },
                        );
                        pixels.insert(id, bytes);
                        assert(pixel_model(pixels@) =~= pixel_model(old(pixels)@).insert(id, bytes@));
                    },
                    None => {
                        self.buffers.insert(
                            id,
                            CachedSurfaceBuffer {
                                layer: cached.layer,
                                metadata: None,
                                view: None,
                                opaque: cached.opaque,
                                client_mapped: true,
                            },
                        );
                    },
                }
            },
            Assignment::Removed => {
                self.buffers.insert(
                    id,
                    CachedSurfaceBuffer {
                        layer: cached.layer,
                        metadata: None,
                        view: None,
                        opaque: cached.opaque,
                        client_mapped: false,
                    },
                );
            },
            Assignment::Retained { scale, normal_transform, view } => {
                let metadata = self.retained_metadata(id, scale, normal_transform);
                if metadata.is_some() && view.is_some() {
                    self.buffers.insert(
                        id,
                        CachedSurfaceBuffer {
                            layer: cached.layer,
                            metadata,
                            view,
                            opaque: cached.opaque,
                            client_mapped: cached.client_mapped,
                        },
                    );
                }
            },
        }
        proof {
            let applied = before.commit_applied(incoming);
            assert(ensured.buffers[id] == cached);
            assert(self@.buffers =~= ensured.buffers.insert(
                id,
                ensured.assigned(id, incoming.assignment),
            ));
            assert(self@ =~= applied);
        }
    }

    fn forget_unlisted(&mut self, nodes: &Vec<TreeNode>)
        ensures
            final(self)@ == (TreeModel {
                buffers: old(self)@.buffers.restrict(Set::new(|id: u64| lists(nodes@, id))),
                ..old(self)@
            }),
    {
        let ghost before = self@;
        let keys = table_keys(&self.buffers);
        let mut i: usize = 0;
        assert(keys@.skip(0) =~= keys@);
        while i < keys.len()
            invariant
                i <= keys@.len(),
                keys@.no_duplicates(),
                self@.nodes == before.nodes,
                self@.root_geometry == before.root_geometry,
                self@.next_layer == before.next_layer,
                forall|id: u64| #[trigger]
                    keys@.contains(id) <==> before.buffers.contains_key(id),
                forall|id: u64| #[trigger]
                    self.buffers@.contains_key(id) <==> before.buffers.contains_key(id) && (lists(
                        nodes@,
                        id,
                    ) || keys@.skip(i as int).contains(id)),
                forall|id: u64| #[trigger]
                    self.buffers@.contains_key(id) ==> self.buffers@[id] == before.buffers[id],
            decreases keys@.len() - i,
        {
            let ghost rest = keys@.skip(i as int);
            let ghost next = keys@.skip(i + 1);
            let key: u64 = keys[i];
            proof {
                assert(rest[0] == key);
                assert(rest.drop_first() =~= next);
                assert forall|id: u64| #[trigger] next.contains(id) <==> rest.contains(id) && id
                    != key by {
                    if rest.contains(id) && id != key {
                        let k = choose|k: int| 0 <= k < rest.len() && rest[k] == id;
                        assert(next[k - 1] == id);
                    }
                    if next.contains(id) {
                        let k = choose|k: int| 0 <= k < next.len() && next[k] == id;
                        assert(rest[k + 1] == id);
                        assert(keys@[i + 1 + k] == id);
                        assert(keys@[i as int] == key);
                    }
                }
            }
            if !is_listed(nodes, key) {
                self.buffers.remove(&key);
            }
            proof {
                assert forall|id: u64| #[trigger] self.buffers@.contains_key(id)
                    <==> before.buffers.contains_key(id) && (lists(nodes@, id) || next.contains(id)) by {
                    assert(next.contains(id) <==> rest.contains(id) && id != key);
                    assert(keys@.contains(key)) by {
                        assert(keys@[i as int] == key);
                    }
                }
            }
            i = i + 1;
        }
        assert(self@.buffers =~= before.buffers.restrict(Set::new(|id: u64| lists(nodes@, id)))) by {
            assert(keys@.skip(i as int).len() == 0);
        }
    }

    /// Takes in a committed tree, with the window geometry of its root, and
    /// returns what is shown of it below `root`.
    pub fn update(&mut self, root: u64, committed: Vec<CommittedNode>) -> (snapshot: TreeSnapshot)
        requires
            old(self)@.wf(),
            distinct(nodes_of(committed@)),
        ensures
            final(self)@.wf(),
            final(self)@ == old(self)@.updated(committed@),
            final(self)@.root_geometry == committed_geometry(committed@),
            final(self)@.shows(
                snapshot,
                root,
                new_pixels(old(self)@.relisted(nodes_of(committed@)), committed@),
            ),
    {
        let ghost before = self@;
        let ghost all = committed@;
        let mut nodes: Vec<TreeNode> = Vec::new();
        let mut geometry: Option<RootGeometry> = None;
        let mut i: usize = 0;
        while i < committed.len()
            invariant
                i <= committed@.len(),
                nodes@ == nodes_of(committed@).take(i as int),
                geometry == committed_geometry(committed@.take(i as int)),
            decreases committed@.len() - i,
        {
            assert(committed@.take(i + 1).drop_last() =~= committed@.take(i as int));
            if committed[i].node.parent.is_none() {
                geometry = committed[i].geometry;
            }
            nodes.push(committed[i].node);
            assert(nodes@ =~= nodes_of(committed@).take(i + 1));
            i = i + 1;
        }
        assert(nodes@ =~= nodes_of(committed@));
        assert(committed@.take(i as int) =~= committed@);
        self.forget_unlisted(&nodes);
        self.nodes = nodes;
        let ghost relisted = self@;
        assert(relisted =~= before.relisted(nodes_of(all)));
        let mut pixels: HashMap<u64, Vec<u8>> = HashMap::new();
        assert(pixel_model(pixels@) =~= Map::<u64, Seq<u8>>::empty());
        assert(all.take(0) =~= Seq::<CommittedNode>::empty());
        for commit in it: committed.into_iter()
            invariant
                it.seq() == all,
                self@.wf(),
                self@.nodes == nodes_of(all),
                self@ == relisted.commits_applied(all.take(it.index() as int)),
                pixel_model(pixels@) == new_pixels(relisted, all.take(it.index() as int)),
        {
            let ghost index = it.index() as int;
            proof {
                assert(all.take(index + 1).drop_last() =~= all.take(index));
                assert(all.take(index + 1).last() == commit);
                assert(nodes_of(all)[index].id == commit.node.id);
            }
            self.apply_commit(commit, &mut pixels);
        }
        assert(all.take(all.len() as int) =~= all);
        self.root_geometry = geometry;
        self.snapshot(root, pixels)
    }

    fn visible_at(&self, id: u64) -> (visible: bool)
        ensures
            visible == self@.visible(id),
    {
        let mut current: u64 = id;
        let mut left: usize = self.nodes.len();
        loop
            invariant
                self@.mapped_upward(id, self@.nodes.len() + 1) == self@.mapped_upward(
                    current,
                    (left + 1) as nat,
                ),
            decreases left,
        {
            if !self.client_mapped(current) {
                return false;
            }
            match find_parent(&self.nodes, current) {
                Some(parent) => {
                    if left == 0 {
                        assert(self@.mapped_upward(parent, 0));
                        return true;
                    }
                    current = parent;
                    left = left - 1;
                },
                None => {
                    return true;
                },
            }
        }
    }

    fn overlays_above(&self, root: u64) -> (overlays: Vec<OverlayPlacement>)
        ensures
            overlays@ == self@.overlays(above_root(self@.nodes, root)),
    {
        let mut overlays: Vec<OverlayPlacement> = Vec::new();
        let mut start: usize = 0;
        assert(self.nodes@.skip(0) =~= self.nodes@);
        while start < self.nodes.len() && self.nodes[start].id != root
            invariant
                start <= self.nodes@.len(),
                above_root(self.nodes@, root) == above_root(self.nodes@.skip(start as int), root),
            decreases self.nodes@.len() - start,
        {
            assert(self.nodes@.skip(start as int).drop_first() =~= self.nodes@.skip(start + 1));
            start = start + 1;
        }
        if start == self.nodes.len() {
            return overlays;
        }
        assert(self.nodes@.skip(start as int).drop_first() =~= self.nodes@.skip(start + 1));
        let ghost above = self.nodes@.skip(start + 1);
        assert(above == above_root(self.nodes@, root));
        let mut i: usize = start + 1;
        assert(above.take(0) =~= Seq::<TreeNode>::empty());
        while i < self.nodes.len()
            invariant
                start + 1 <= i <= self.nodes@.len(),
                above == self.nodes@.skip(start + 1),
                overlays@ == self@.overlays(above.take(i - start - 1)),
            decreases self.nodes@.len() - i,
        {
            let node = self.nodes[i];
            proof {
                assert(above.take(i - start).drop_last() =~= above.take(i - start - 1));
                assert(above.take(i - start).last() == node);
            }
            if self.visible_at(node.id) {
                if let Some(cached) = self.buffers.get(&node.id) {
                    if let Some(view) = cached.view {
                        overlays.push(
                            OverlayPlacement { layer: cached.layer, x: node.x, y: node.y, view },
                        );
                    }
                }
            }
            i = i + 1;
        }
        assert(above.take(i - start - 1) =~= above);
        overlays
    }

    fn layer_updates(&self, pixels: HashMap<u64, Vec<u8>>) -> (updates: Vec<LayerUpdate>)
        requires
            self@.wf(),
        ensures
            self@.lists_updates(updates@, self@.nodes, pixel_model(pixels@)),
    {
        let ghost all = pixel_model(pixels@);
        let mut left: HashMap<u64, Vec<u8>> = pixels;
        let mut updates: Vec<LayerUpdate> = Vec::new();
        let mut i: usize = 0;
        while i < self.nodes.len()
            invariant
                i <= self.nodes@.len(),
                self@.wf(),
                self@.lists_updates(updates@, self.nodes@.take(i as int), all),
                forall|k: int|
                    #![trigger self.nodes@[k]]
                    i <= k < self.nodes@.len() ==> (left@.contains_key(self.nodes@[k].id)
                        <==> all.contains_key(self.nodes@[k].id)) && (left@.contains_key(
                        self.nodes@[k].id,
                    ) ==> left@[self.nodes@[k].id]@ == all[self.nodes@[k].id]),
            decreases self.nodes@.len() - i,
        {
            let id: u64 = self.nodes[i].id;
            let ghost seen = self.nodes@.take(i as int);
            let ghost next = self.nodes@.take(i + 1);
            proof {
                assert(forall|k: int| 0 <= k < i ==> seen[k] == self.nodes@[k] && next[k]
                    == self.nodes@[k]);
                assert(next[i as int].id == id);
                assert(distinct(self@.nodes));
            }
            let ghost earlier = updates@;
            if let Some(cached) = self.buffers.get(&id) {
                if let (Some(metadata), Some(_)) = (cached.metadata, cached.view) {
                    let update = LayerUpdate {
                        layer: cached.layer,
                        width: metadata.width,
                        height: metadata.height,
                        pixels: left.remove(&id),
                        opaque: cached.opaque,
                    };
                    assert(self.nodes@[i as int].id == id);
                    assert(update@ =~= self@.layer_update(id, all));
                    self.insert_update(&mut updates, update, Ghost(i as int), Ghost(all));
                }
            }
            proof {
                assert forall|k: int|
                    #![trigger self.nodes@[k]]
                    i + 1 <= k < self.nodes@.len() implies (left@.contains_key(self.nodes@[k].id)
                    <==> all.contains_key(self.nodes@[k].id)) && (left@.contains_key(
                    self.nodes@[k].id,
                ) ==> left@[self.nodes@[k].id]@ == all[self.nodes@[k].id]) by {
                    assert(self.nodes@[k].id != self.nodes@[i as int].id);
                }
                if !self@.shown(id) {
                    assert(self@.lists_updates(updates@, next, all)) by {
                        assert forall|j: int| 0 <= j < updates@.len() implies self@.is_update_of_some(
                            (#[trigger] updates@[j])@,
                            next,
                            all,
                        ) by {
                            assert(self@.is_update_of_some(updates@[j]@, seen, all));
                            let k = choose|k: int|
                                0 <= k < seen.len() && self@.shown((#[trigger] seen[k]).id)
                                    && updates@[j]@ == self@.layer_update(seen[k].id, all);
                            assert(next[k] == seen[k]);
                        }
                        assert forall|k: int|
                            0 <= k < next.len() && self@.shown((#[trigger] next[k]).id) implies has_update(
                            updates@,
                            self@.layer_update(next[k].id, all),
                        ) by {
                            assert(seen[k] == next[k]);
                        }
                    }
                }
            }
            i = i + 1;
        }
        assert(self.nodes@.take(i as int) =~= self.nodes@);
        updates
    }

    fn insert_update(
        &self,
        updates: &mut Vec<LayerUpdate>,
        update: LayerUpdate,
        Ghost(index): Ghost<int>,
        Ghost(pixels): Ghost<Map<u64, Seq<u8>>>,
    )
        requires
            self@.wf(),
            0 <= index < self@.nodes.len(),
            self@.shown(self@.nodes[index].id),
            update@ == self@.layer_update(self@.nodes[index].id, pixels),
            self@.lists_updates(old(updates)@, self@.nodes.take(index), pixels),
        ensures
            self@.lists_updates(final(updates)@, self@.nodes.take(index + 1), pixels),
    {
        let ghost before = updates@;
        let ghost seen = self@.nodes.take(index);
        let ghost next = self@.nodes.take(index + 1);
        let ghost id = self@.nodes[index].id;
        let mut place: usize = 0;
        while place < updates.len() && updates[place].layer.0 < update.layer.0
            invariant
                place <= updates@.len(),
                updates@ == before,
                forall|j: int| 0 <= j < place ==> (#[trigger] before[j]).layer.0 < update.layer.0,
            decreases updates@.len() - place,
        {
            place = place + 1;
        }
        proof {
            assert forall|j: int| 0 <= j < before.len() implies (#[trigger] before[j]).layer.0
                != update.layer.0 by {
                assert(self@.is_update_of_some(before[j]@, seen, pixels));
                let k = choose|k: int|
                    0 <= k < seen.len() && self@.shown((#[trigger] seen[k]).id) && before[j]@
                        == self@.layer_update(seen[k].id, pixels);
                assert(self@.nodes[k].id != self@.nodes[index].id);
                assert(self@.buffers.contains_key(seen[k].id));
                assert(self@.buffers.contains_key(id));
            }
        }
        updates.insert(place, update);
        proof {
            let after = updates@;
            assert(after =~= before.insert(place as int, update));
            assert(after[place as int] == update);
            assert(forall|j: int| 0 <= j < place ==> after[j] == before[j]);
            assert(forall|j: int| place < j < after.len() ==> after[j] == before[j - 1]);
            assert forall|a: int, b: int| 0 <= a < b < after.len() implies (#[trigger] after[a]).layer.0
                < (#[trigger] after[b]).layer.0 by {
                if place < before.len() {
                    assert(before[place as int].layer.0 > update.layer.0);
                }
                if b > place && b - 1 > place {
                    assert(before[place as int].layer.0 < before[b - 1].layer.0);
                }
            }
            assert forall|j: int| 0 <= j < after.len() implies self@.is_update_of_some(
                (#[trigger] after[j])@,
                next,
                pixels,
            ) by {
                if j == place {
                    assert(next[index] == self@.nodes[index]);
                } else {
                    let old_index = if j < place {
                        j
                    } else {
                        j - 1
                    };
                    assert(self@.is_update_of_some(before[old_index]@, seen, pixels));
                    let k = choose|k: int|
                        0 <= k < seen.len() && self@.shown((#[trigger] seen[k]).id)
                            && before[old_index]@ == self@.layer_update(seen[k].id, pixels);
                    assert(next[k] == seen[k]);
                }
            }
            assert forall|k: int| 0 <= k < next.len() && self@.shown((#[trigger] next[k]).id) implies has_update(
                after,
                self@.layer_update(next[k].id, pixels),
            ) by {
                if k == index {
                    assert(after[place as int]@ == self@.layer_update(next[k].id, pixels));
                } else {
                    assert(seen[k] == next[k]);
                    assert(has_update(before, self@.layer_update(seen[k].id, pixels)));
                    let j = choose|j: int|
                        0 <= j < before.len() && (#[trigger] before[j])@ == self@.layer_update(
                            seen[k].id,
                            pixels,
                        );
                    if j < place {
                        assert(after[j] == before[j]);
                    } else {
                        assert(after[j + 1] == before[j]);
                    }
                }
            }
        }
    }

    /// Takes a surface out of the tree, with all that stand below it, and
    /// returns what is still shown below `root`. The window geometry stays.
    pub fn remove_surface(&mut self, root: u64, removed: u64) -> (snapshot: TreeSnapshot)
        requires
            old(self)@.wf(),
        ensures
            final(self)@.wf(),
            final(self)@ == old(self)@.pruned(removed),
            final(self)@.root_geometry == old(self)@.root_geometry,
            final(self)@.shows(snapshot, root, Map::<u64, Seq<u8>>::empty()),
    {
        let ghost before = self@;
        let marks = mark_descendants(&self.nodes, removed);
        let mut kept: Vec<TreeNode> = Vec::new();
        let mut i: usize = 0;
        let ghost stays = |node: TreeNode| !descends(before.nodes, node.id, removed);
        proof {
            reveal(Seq::filter);
            assert(before.nodes.take(0).filter(stays) =~= Seq::<TreeNode>::empty());
        }
        while i < self.nodes.len()
            invariant
                i <= self.nodes@.len(),
                self.nodes@ == before.nodes,
                before.wf(),
                marks@.len() == before.nodes.len(),
                forall|j: int|
                    0 <= j < marks@.len() ==> #[trigger] marks@[j] == descends(
                        before.nodes,
                        before.nodes[j].id,
                        removed,
                    ),
                stays == (|node: TreeNode| !descends(before.nodes, node.id, removed)),
                kept@ == before.nodes.take(i as int).filter(stays),
                distinct(kept@),
                forall|j: int|
                    0 <= j < kept@.len() ==> is_kept(before.nodes, (#[trigger] kept@[j]).id, i as int, removed),
                forall|k: int|
                    0 <= k < i && !descends(before.nodes, (#[trigger] before.nodes[k]).id, removed)
                        ==> lists(kept@, before.nodes[k].id),
            decreases self.nodes@.len() - i,
        {
            let ghost earlier = kept@;
            let node = self.nodes[i];
            proof {
                reveal(Seq::filter);
                assert(before.nodes.take(i + 1).drop_last() =~= before.nodes.take(i as int));
                assert(before.nodes.take(i + 1).last() == node);
            }
            let marked = marks[i];
            assert(marked == descends(before.nodes, before.nodes[i as int].id, removed));
            if !marked {
                kept.push(node);
                proof {
                    assert(kept@ =~= earlier.push(node));
                    assert forall|a: int, b: int| 0 <= a < b < kept@.len() implies (#[trigger] kept@[a]).id
                        != (#[trigger] kept@[b]).id by {
                        if b == earlier.len() {
                            assert(is_kept(before.nodes, earlier[a].id, i as int, removed));
                        }
                    }
                }
            }
            proof {
                assert forall|j: int| 0 <= j < kept@.len() implies is_kept(
                    before.nodes,
                    (#[trigger] kept@[j]).id,
                    i + 1,
                    removed,
                ) by {
                    if j < earlier.len() {
                        assert(is_kept(before.nodes, earlier[j].id, i as int, removed));
                    } else {
                        assert(before.nodes[i as int].id == kept@[j].id);
                    }
                }
                assert forall|k: int|
                    0 <= k < i + 1 && !descends(before.nodes, (#[trigger] before.nodes[k]).id, removed) implies lists(
                    kept@,
                    before.nodes[k].id,
                ) by {
                    if k < i {
                        assert(lists(earlier, before.nodes[k].id));
                        let j = choose|j: int|
                            0 <= j < earlier.len() && (#[trigger] earlier[j]).id == before.nodes[k].id;
                        assert(kept@[j] == earlier[j]);
                    } else {
                        assert(kept@[earlier.len() as int].id == before.nodes[k].id);
                    }
                }
            }
            i = i + 1;
        }
        assert(before.nodes.take(i as int) =~= before.nodes);
        self.forget_unlisted(&kept);
        self.nodes = kept;
        proof {
            let pruned = before.pruned(removed);
            assert(self@.nodes == pruned.nodes);
            assert forall|id: u64| before.buffers.contains_key(id) implies (lists(kept@, id)
                <==> !descends(before.nodes, id, removed)) by {
                assert(lists(before.nodes, id));
                let k = choose|k: int| 0 <= k < before.nodes.len() && (#[trigger] before.nodes[k]).id == id;
                if lists(kept@, id) {
                    let j = choose|j: int| 0 <= j < kept@.len() && (#[trigger] kept@[j]).id == id;
                    assert(is_kept(before.nodes, kept@[j].id, i as int, removed));
                }
            }
            assert(self@.buffers =~= pruned.buffers);
            assert(self@ =~= pruned);
        }
        let pixels: HashMap<u64, Vec<u8>> = HashMap::new();
        assert(pixel_model(pixels@) =~= Map::<u64, Seq<u8>>::empty());
        self.snapshot(root, pixels)
    }

    fn snapshot(&self, root: u64, pixels: HashMap<u64, Vec<u8>>) -> (snapshot: TreeSnapshot)
        requires
            self@.wf(),
        ensures
            self@.shows(snapshot, root, pixel_model(pixels@)),
    {
        let placement = match self.buffers.get(&root) {
            Some(cached) => match cached.view {
                Some(view) => Some(RootPlacement { layer: cached.layer, view }),
                None => None,
            },
            None => None,
        };
        TreeSnapshot {
            client_mapped: self.client_mapped(root),
            root: placement,
            geometry: self.root_geometry,
            overlays: self.overlays_above(root),
            buffers: self.layer_updates(pixels),
        }
    }
}

/// Whether the frame callbacks of a client are answered: as long as it holds a
/// buffer, even one that could not be imported.
pub fn should_drain_callbacks(client_mapped: bool, _displayable: bool) -> (drain: bool)
    ensures
        drain == client_mapped,
{
    client_mapped
}

/// A surface keeps its layer for as long as it stays in the tree.
pub proof fn surfaces_keep_their_layer(tree: TreeModel, committed: Seq<CommittedNode>, id: u64)
    requires
        tree.buffers.contains_key(id),
        lists(nodes_of(committed), id),
    ensures
        tree.updated(committed).buffers.contains_key(id),
        tree.updated(committed).buffers[id].layer == tree.buffers[id].layer,
{
    let relisted = tree.relisted(nodes_of(committed));
    assert(relisted.buffers.contains_key(id));
    commits_keep_layers(relisted, committed, id);
}

proof fn commits_keep_layers(tree: TreeModel, committed: Seq<CommittedNode>, id: u64)
    requires
        tree.buffers.contains_key(id),
    ensures
        tree.commits_applied(committed).buffers.contains_key(id),
        tree.commits_applied(committed).buffers[id].layer == tree.buffers[id].layer,
    decreases committed.len(),
{
    if committed.len() > 0 {
        commits_keep_layers(tree, committed.drop_last(), id);
    }
}

/// A buffer that could not be imported leaves its surface mapped, with nothing
/// to show.
pub proof fn failed_imports_stay_mapped(tree: TreeModel, commit: CommittedNode)
    requires
        commit.assignment == Assignment::NewBuffer(None),
        tree.layer_ensured(commit.node.id).buffers.contains_key(commit.node.id),
    ensures
        tree.commit_applied(commit).mapped(commit.node.id),
        !tree.commit_applied(commit).shown(commit.node.id),
{
}

/// In a tree whose surfaces stand no deeper than there are surfaces, one can be
/// seen just when it and all its ancestors are mapped.
pub proof fn visibility_needs_every_ancestor(tree: TreeModel, depth: spec_fn(u64) -> nat, id: u64)
    requires
        forall|child: u64|
            #![trigger parent_in(tree.nodes, child)]
            parent_in(tree.nodes, child) is Some ==> depth(parent_in(tree.nodes, child)->0) < depth(
                child,
            ),
        depth(id) <= tree.nodes.len(),
    ensures
        tree.visible(id) <==> forall|steps: nat|
            #![trigger ancestor(tree.nodes, id, steps)]
            ancestor(tree.nodes, id, steps) is Some ==> tree.mapped(
                ancestor(tree.nodes, id, steps)->0,
            ),
{
    mapped_ancestors(tree, depth, id, tree.nodes.len() + 1);
}

proof fn mapped_ancestors(tree: TreeModel, depth: spec_fn(u64) -> nat, id: u64, generations: nat)
    requires
        forall|child: u64|
            #![trigger parent_in(tree.nodes, child)]
            parent_in(tree.nodes, child) is Some ==> depth(parent_in(tree.nodes, child)->0) < depth(
                child,
            ),
        depth(id) < generations,
    ensures
        tree.mapped_upward(id, generations) <==> forall|steps: nat|
            #![trigger ancestor(tree.nodes, id, steps)]
            ancestor(tree.nodes, id, steps) is Some ==> tree.mapped(
                ancestor(tree.nodes, id, steps)->0,
            ),
    decreases generations,
{
    assert(ancestor(tree.nodes, id, 0) == Some(id));
    match parent_in(tree.nodes, id) {
        Some(parent) => {
            mapped_ancestors(tree, depth, parent, (generations - 1) as nat);
            assert(forall|steps: nat|
                #![trigger ancestor(tree.nodes, parent, steps)]
                ancestor(tree.nodes, parent, steps) == ancestor(tree.nodes, id, steps + 1));
            if tree.mapped_upward(id, generations) {
                assert forall|steps: nat|
                    #![trigger ancestor(tree.nodes, id, steps)]
                    ancestor(tree.nodes, id, steps) is Some implies tree.mapped(
                    ancestor(tree.nodes, id, steps)->0,
                ) by {
                    if steps > 0 {
                        let fewer = (steps - 1) as nat;
                        assert(ancestor(tree.nodes, parent, fewer) == ancestor(
                            tree.nodes,
                            id,
                            fewer + 1,
                        ));
                    }
                }
            }
        },
        None => {
            assert(forall|steps: nat|
                #![trigger ancestor(tree.nodes, id, steps)]
                steps > 0 ==> ancestor(tree.nodes, id, steps) is None);
        },
    }
}

/// Taking a surface out takes out just it and what stands below it.
pub proof fn removal_takes_the_whole_branch(tree: TreeModel, removed: u64, id: u64)
    requires
        tree.wf(),
    ensures
        tree.pruned(removed).buffers.contains_key(id) <==> tree.buffers.contains_key(id)
            && !descends(tree.nodes, id, removed),
        tree.pruned(removed).buffers.contains_key(id) ==> tree.pruned(removed).buffers[id]
            == tree.buffers[id],
        !tree.pruned(removed).mapped(removed),
{
    assert(ancestor(tree.nodes, removed, 0) == Some(removed));
}

/// A surface stands from the root by the sum of the offsets on the way down to
/// it.
pub proof fn positions_add_up_offsets(
    path: Seq<(u64, SurfaceOffset)>,
    id: u64,
    offset: SurfaceOffset,
)
    requires
        TraversalContext::start().reaches_all(path.push((id, offset))),
    ensures
        ({
            let node = TraversalContext::start().walked(path).placed(id, offset);
            let (x, y) = total_offset(path.push((id, offset)));
            &&& node.x == x
            &&& node.y == y
            &&& node.parent == (if path.len() == 0 {
                None
            } else {
                Some(path.last().0)
            })
        }),
{
    let whole = path.push((id, offset));
    assert(whole.drop_last() =~= path);
    assert(whole.take(path.len() as int) =~= path);
    assert forall|i: int| 0 <= i < path.len() implies TraversalContext::start().walked(
        #[trigger] path.take(i),
    ).reaches(path[i].1) by {
        assert(whole.take(i) =~= path.take(i));
    }
    walks_add_up_offsets(path);
}

proof fn walks_add_up_offsets(path: Seq<(u64, SurfaceOffset)>)
    requires
        TraversalContext::start().reaches_all(path),
    ensures
        TraversalContext::start().walked(path).x == total_offset(path).0,
        TraversalContext::start().walked(path).y == total_offset(path).1,
    decreases path.len(),
{
    if path.len() > 0 {
        let shorter = path.drop_last();
        assert forall|i: int| 0 <= i < shorter.len() implies TraversalContext::start().walked(
            #[trigger] shorter.take(i),
        ).reaches(shorter[i].1) by {
            assert(path.take(i) =~= shorter.take(i));
        }
        walks_add_up_offsets(shorter);
        assert(path.take(path.len() - 1) =~= shorter);
    }
}

/// The window geometry is the one that was committed last, whatever surfaces
/// were taken out since.
pub proof fn geometry_lasts_until_the_next_commit(
    tree: TreeModel,
    committed: Seq<CommittedNode>,
    removed: Seq<u64>,
)
    ensures
        tree.updated(committed).all_pruned(removed).root_geometry == committed_geometry(committed),
    decreases removed.len(),
{
    if removed.len() > 0 {
        geometry_lasts_until_the_next_commit(tree, committed, removed.drop_last());
    }
}

/// Every overlay of a snapshot is a visible surface that is listed over the
/// root: it has the layer and the view of that surface's buffer, and stands
/// where the surface stands on both axes.
pub proof fn overlays_stand_where_their_surfaces_do(
    tree: TreeModel,
    snapshot: TreeSnapshot,
    root: u64,
    pixels: Map<u64, Seq<u8>>,
    i: int,
)
    requires
        tree.shows(snapshot, root, pixels),
        0 <= i < snapshot.overlays@.len(),
    ensures
        exists|r: int, k: int|
            #![trigger tree.nodes[r], tree.nodes[k]]
            0 <= r < k < tree.nodes.len() && tree.nodes[r].id == root && tree.visible(
                tree.nodes[k].id,
            ) && tree.buffers.contains_key(tree.nodes[k].id) && snapshot.overlays@[i].x
                == tree.nodes[k].x && snapshot.overlays@[i].y == tree.nodes[k].y
                && snapshot.overlays@[i].layer == tree.buffers[tree.nodes[k].id].layer && Some(
                snapshot.overlays@[i].view,
            ) == tree.buffers[tree.nodes[k].id].view,
{
    let above = above_root(tree.nodes, root);
    overlays_have_surfaces(tree, above, i);
    let j = choose|j: int|
        #![trigger above[j]]
        0 <= j < above.len() && tree.visible(above[j].id) && tree.buffers.contains_key(above[j].id)
            && tree.overlays(above)[i].x == above[j].x && tree.overlays(above)[i].y == above[j].y
            && tree.overlays(above)[i].layer == tree.buffers[above[j].id].layer && Some(
            tree.overlays(above)[i].view,
        ) == tree.buffers[above[j].id].view;
    let r = first_root(tree.nodes, root);
    assert(above[j] == tree.nodes[r + 1 + j]);
    assert(tree.nodes[r].id == root);
}

/// Every visible surface over the root that has something to show is an overlay,
/// and of two such surfaces the one that is listed later is the overlay on top.
pub proof fn visible_surfaces_are_overlays_in_order(
    tree: TreeModel,
    snapshot: TreeSnapshot,
    root: u64,
    pixels: Map<u64, Seq<u8>>,
    r: int,
    k: int,
    m: int,
)
    requires
        tree.wf(),
        tree.shows(snapshot, root, pixels),
        0 <= r < k <= m < tree.nodes.len(),
        tree.nodes[r].id == root,
        tree.visible(tree.nodes[k].id),
        tree.buffers.contains_key(tree.nodes[k].id),
        tree.buffers[tree.nodes[k].id].view is Some,
        tree.visible(tree.nodes[m].id),
        tree.buffers.contains_key(tree.nodes[m].id),
        tree.buffers[tree.nodes[m].id].view is Some,
    ensures
        exists|i: int, j: int|
            #![trigger snapshot.overlays@[i], snapshot.overlays@[j]]
            0 <= i <= j < snapshot.overlays@.len() && (i == j <==> k == m)
                && snapshot.overlays@[i].layer == tree.buffers[tree.nodes[k].id].layer
                && snapshot.overlays@[i].x == tree.nodes[k].x && snapshot.overlays@[i].y
                == tree.nodes[k].y && snapshot.overlays@[j].layer
                == tree.buffers[tree.nodes[m].id].layer && snapshot.overlays@[j].x
                == tree.nodes[m].x && snapshot.overlays@[j].y == tree.nodes[m].y,
{
    let above = above_root(tree.nodes, root);
    let first = first_root(tree.nodes, root);
    assert(first == r) by {
        if first < r {
            assert(tree.nodes[first].id != tree.nodes[r].id);
        }
    }
    let a = k - r - 1;
    let b = m - r - 1;
    assert(above[a] == tree.nodes[k]);
    assert(above[b] == tree.nodes[m]);
    overlays_of_a_prefix(tree, above, a);
    overlays_of_a_prefix(tree, above, b);
    let i = tree.overlays(above.take(a)).len() as int;
    let j = tree.overlays(above.take(b)).len() as int;
    if a < b {
        overlays_of_a_prefix(tree, above.take(b), a);
        assert(above.take(b).take(a) =~= above.take(a));
        assert(above.take(b).take(a + 1) =~= above.take(a + 1));
    }
    assert(snapshot.overlays@[i].layer == tree.buffers[tree.nodes[k].id].layer);
    assert(snapshot.overlays@[j].layer == tree.buffers[tree.nodes[m].id].layer);
}

/// The overlays of the first `end` nodes come first; a node that is shown comes
/// right after those before it.
proof fn overlays_of_a_prefix(tree: TreeModel, nodes: Seq<TreeNode>, end: int)
    requires
        0 <= end < nodes.len(),
        tree.visible(nodes[end].id),
        tree.buffers.contains_key(nodes[end].id),
        tree.buffers[nodes[end].id].view is Some,
    ensures
        tree.overlays(nodes.take(end)).len() < tree.overlays(nodes).len(),
        tree.overlays(nodes)[tree.overlays(nodes.take(end)).len() as int] == (OverlayPlacement {
            layer: tree.buffers[nodes[end].id].layer,
            x: nodes[end].x,
            y: nodes[end].y,
            view: tree.buffers[nodes[end].id].view->0,
        }),
    decreases nodes.len(),
{
    if end == nodes.len() - 1 {
        assert(nodes.take(end) =~= nodes.drop_last());
    } else {
        assert(nodes.drop_last().take(end) =~= nodes.take(end));
        overlays_of_a_prefix(tree, nodes.drop_last(), end);
    }
}

proof fn overlays_have_surfaces(tree: TreeModel, nodes: Seq<TreeNode>, i: int)
    requires
        0 <= i < tree.overlays(nodes).len(),
    ensures
        exists|k: int|
            #![trigger nodes[k]]
            0 <= k < nodes.len() && tree.visible(nodes[k].id) && tree.buffers.contains_key(
                nodes[k].id,
            ) && tree.overlays(nodes)[i].x == nodes[k].x && tree.overlays(nodes)[i].y == nodes[k].y
                && tree.overlays(nodes)[i].layer == tree.buffers[nodes[k].id].layer && Some(
                tree.overlays(nodes)[i].view,
            ) == tree.buffers[nodes[k].id].view,
    decreases nodes.len(),
{
    let shorter = nodes.drop_last();
    if i < tree.overlays(shorter).len() {
        overlays_have_surfaces(tree, shorter, i);
        let k = choose|k: int|
            #![trigger shorter[k]]
            0 <= k < shorter.len() && tree.visible(shorter[k].id) && tree.buffers.contains_key(
                shorter[k].id,
            ) && tree.overlays(shorter)[i].x == shorter[k].x && tree.overlays(shorter)[i].y
                == shorter[k].y && tree.overlays(shorter)[i].layer
                == tree.buffers[shorter[k].id].layer && Some(tree.overlays(shorter)[i].view)
                == tree.buffers[shorter[k].id].view;
        assert(nodes[k] == shorter[k]);
        assert(tree.overlays(nodes)[i] == tree.overlays(shorter)[i]);
    } else {
        assert(nodes[nodes.len() - 1] == nodes.last());
    }
}

/// The nodes over the root are those that come after the first one of its name.
proof fn first_root(nodes: Seq<TreeNode>, root: u64) -> (first: int)
    ensures
        0 <= first <= nodes.len(),
        forall|i: int| 0 <= i < first ==> (#[trigger] nodes[i]).id != root,
        first < nodes.len() ==> nodes[first].id == root && above_root(nodes, root) == nodes.skip(
            first + 1,
        ),
        first == nodes.len() ==> above_root(nodes, root).len() == 0,
    decreases nodes.len(),
{
    if nodes.len() == 0 {
        0
    } else if nodes[0].id == root {
        assert(nodes.drop_first() =~= nodes.skip(1));
        0
    } else {
        let rest = nodes.drop_first();
        let first = first_root(rest, root);
        assert forall|i: int| 0 <= i < first + 1 implies (#[trigger] nodes[i]).id != root by {
            if i > 0 {
                assert(rest[i - 1] == nodes[i]);
            }
        }
        if first < rest.len() {
            assert(rest.skip(first + 1) =~= nodes.skip(first + 2));
        }
        first + 1
    }
}

/// A snapshot shows the root just where its buffer has a view, with that view
/// and the root's own layer. It says whether the root holds a buffer and which
/// geometry it is cropped to.
pub proof fn snapshots_show_the_root(
    tree: TreeModel,
    snapshot: TreeSnapshot,
    root: u64,
    pixels: Map<u64, Seq<u8>>,
)
    requires
        tree.shows(snapshot, root, pixels),
    ensures
        snapshot.root is Some <==> tree.buffers.contains_key(root) && tree.buffers[root].view
            is Some,
        snapshot.root matches Some(placement) ==> placement.layer == tree.buffers[root].layer
            && Some(placement.view) == tree.buffers[root].view,
        snapshot.client_mapped <==> tree.buffers.contains_key(root)
            && tree.buffers[root].client_mapped,
        snapshot.geometry == tree.root_geometry,
{
}

/// Every buffer of a snapshot is that of a listed surface with something to
/// show: it has that surface's layer, the size of its buffer, and its new pixels
/// where there are any.
pub proof fn buffers_are_those_of_shown_surfaces(
    tree: TreeModel,
    snapshot: TreeSnapshot,
    root: u64,
    pixels: Map<u64, Seq<u8>>,
    i: int,
)
    requires
        tree.shows(snapshot, root, pixels),
        0 <= i < snapshot.buffers@.len(),
    ensures
        exists|k: int|
            #![trigger tree.nodes[k]]
            0 <= k < tree.nodes.len() && tree.buffers.contains_key(tree.nodes[k].id)
                && tree.buffers[tree.nodes[k].id].view is Some && (
            tree.buffers[tree.nodes[k].id].metadata matches Some(metadata) && metadata.width
                == snapshot.buffers@[i].width && metadata.height == snapshot.buffers@[i].height)
                && snapshot.buffers@[i].layer == tree.buffers[tree.nodes[k].id].layer
                && snapshot.buffers@[i].opaque == tree.buffers[tree.nodes[k].id].opaque && (
            match snapshot.buffers@[i].pixels {
                Some(bytes) => pixels.contains_key(tree.nodes[k].id) && bytes@
                    == pixels[tree.nodes[k].id],
                None => !pixels.contains_key(tree.nodes[k].id),
            }),
{
    let update = snapshot.buffers@[i];
    assert(tree.is_update_of_some(update@, tree.nodes, pixels));
    let k = choose|k: int|
        0 <= k < tree.nodes.len() && tree.shown((#[trigger] tree.nodes[k]).id) && update@
            == tree.layer_update(tree.nodes[k].id, pixels);
    assert(tree.nodes[k] == tree.nodes[k]);
    assert(update@.layer == update.layer);
    assert(update@.pixels == tree.layer_update(tree.nodes[k].id, pixels).pixels);
}

/// Every listed surface with something to show has its buffer in the snapshot,
/// once, whether it is visible or not.
pub proof fn shown_surfaces_have_their_buffer(
    tree: TreeModel,
    snapshot: TreeSnapshot,
    root: u64,
    pixels: Map<u64, Seq<u8>>,
    k: int,
)
    requires
        tree.shows(snapshot, root, pixels),
        0 <= k < tree.nodes.len(),
        tree.buffers.contains_key(tree.nodes[k].id),
        tree.buffers[tree.nodes[k].id].metadata is Some,
        tree.buffers[tree.nodes[k].id].view is Some,
    ensures
        exists|i: int|
            0 <= i < snapshot.buffers@.len() && (#[trigger] snapshot.buffers@[i]).layer
                == tree.buffers[tree.nodes[k].id].layer,
        forall|i: int, j: int|
            0 <= i < j < snapshot.buffers@.len() ==> (#[trigger] snapshot.buffers@[i]).layer != (
            #[trigger] snapshot.buffers@[j]).layer,
{
    assert(tree.shown(tree.nodes[k].id));
    assert(has_update(snapshot.buffers@, tree.layer_update(tree.nodes[k].id, pixels)));
    let i = choose|i: int|
        0 <= i < snapshot.buffers@.len() && (#[trigger] snapshot.buffers@[i])@
            == tree.layer_update(tree.nodes[k].id, pixels);
    assert(snapshot.buffers@[i].layer == snapshot.buffers@[i]@.layer);
}

/// A commit with a new buffer maps its surface and shows just that buffer. One
/// whose buffer could not be imported maps it with nothing to show, and one that
/// removes the buffer unmaps it.
pub proof fn commits_set_the_buffer(tree: TreeModel, commit: CommittedNode)
    requires
        tree.layer_ensured(commit.node.id).buffers.contains_key(commit.node.id),
    ensures
        ({
            let after = tree.commit_applied(commit);
            let buffer = after.buffers[commit.node.id];
            &&& after.buffers.contains_key(commit.node.id)
            &&& commit.assignment matches Assignment::NewBuffer(Some(imported)) ==> {
                &&& buffer.metadata == Some(imported.metadata)
                &&& buffer.view == Some(imported.view)
                &&& buffer.opaque == imported.opaque
                &&& buffer.client_mapped
            }
            &&& commit.assignment == Assignment::NewBuffer(None) ==> {
                &&& buffer.metadata is None && buffer.view is None
                &&& buffer.client_mapped
            }
            &&& commit.assignment is Removed ==> {
                &&& buffer.metadata is None && buffer.view is None
                &&& !buffer.client_mapped
            }
        }),
{
}

/// A commit that keeps its buffer keeps the size of it, whether it is mapped and
/// whether it is opaque. The scale and the transform are the new ones where the
/// scale is positive and what is shown could be worked out; elsewhere nothing
/// changes.
pub proof fn retained_buffers_keep_their_size(
    tree: TreeModel,
    commit: CommittedNode,
    scale: i32,
    normal_transform: bool,
    view: Option<SurfaceContentView>,
)
    requires
        tree.buffers.contains_key(commit.node.id),
        commit.assignment == (Assignment::Retained { scale, normal_transform, view }),
    ensures
        ({
            let before = tree.buffers[commit.node.id];
            let after = tree.commit_applied(commit).buffers[commit.node.id];
            &&& after.layer == before.layer && after.opaque == before.opaque
            &&& after.client_mapped == before.client_mapped
            &&& after.metadata is Some <==> before.metadata is Some
            &&& before.metadata matches Some(metadata) ==> (after.metadata->0).width
                == metadata.width && (after.metadata->0).height == metadata.height
            &&& if before.metadata is Some && view is Some && scale > 0 {
                &&& (after.metadata->0).scale == scale
                &&& (after.metadata->0).normal_transform == normal_transform
                &&& after.view == view
            } else {
                after == before
            }
        }),
{
}

/// A commit changes no surface but its own, and neither the nodes nor the window
/// geometry.
pub proof fn commits_leave_other_surfaces_alone(tree: TreeModel, commit: CommittedNode, other: u64)
    requires
        other != commit.node.id,
    ensures
        tree.commit_applied(commit).buffers.contains_key(other) <==> tree.buffers.contains_key(
            other,
        ),
        tree.buffers.contains_key(other) ==> tree.commit_applied(commit).buffers[other]
            == tree.buffers[other],
        tree.commit_applied(commit).nodes == tree.nodes,
        tree.commit_applied(commit).root_geometry == tree.root_geometry,
{
}

/// A surface that comes new into the tree gets a layer that no surface had
/// before, and the next one gets another.
pub proof fn new_surfaces_get_new_layers(tree: TreeModel, id: u64)
    requires
        tree.wf(),
        !tree.buffers.contains_key(id),
    ensures
        ({
            let after = tree.layer_ensured(id);
            &&& after.buffers.contains_key(id) <==> tree.next_layer is Some
            &&& after.buffers.contains_key(id) ==> {
                &&& Some(after.buffers[id].layer.0) == tree.next_layer
                &&& after.next_layer matches Some(next) ==> after.buffers[id].layer.0 < next
                &&& !after.buffers[id].client_mapped && after.buffers[id].view is None
                &&& forall|other: u64| #[trigger]
                    tree.buffers.contains_key(other) ==> tree.buffers[other].layer
                        != after.buffers[id].layer
            }
        }),
{
}

/// Once a committed tree was taken in, the tree lists its surfaces and no others,
/// in its order, and holds no buffer of a surface that left.
pub proof fn updates_list_the_committed_surfaces(
    tree: TreeModel,
    committed: Seq<CommittedNode>,
    id: u64,
)
    ensures
        tree.updated(committed).nodes.len() == committed.len(),
        forall|i: int|
            0 <= i < committed.len() ==> #[trigger] tree.updated(committed).nodes[i]
                == committed[i].node,
        tree.updated(committed).buffers.contains_key(id) ==> exists|i: int|
            0 <= i < committed.len() && (#[trigger] committed[i]).node.id == id,
{
    let nodes = nodes_of(committed);
    commits_stay_within(tree.relisted(nodes), committed, id);
    if tree.updated(committed).buffers.contains_key(id) {
        if tree.relisted(nodes).buffers.contains_key(id) {
            let i = choose|i: int| 0 <= i < nodes.len() && (#[trigger] nodes[i]).id == id;
            assert(committed[i].node.id == id);
        }
    }
}

proof fn commits_stay_within(tree: TreeModel, committed: Seq<CommittedNode>, id: u64)
    ensures
        tree.commits_applied(committed).nodes == tree.nodes,
        tree.commits_applied(committed).buffers.contains_key(id) ==> tree.buffers.contains_key(id)
            || exists|i: int| 0 <= i < committed.len() && (#[trigger] committed[i]).node.id == id,
    decreases committed.len(),
{
    if committed.len() > 0 {
        let earlier = committed.drop_last();
        commits_stay_within(tree, earlier, id);
        if tree.commits_applied(committed).buffers.contains_key(id) && !tree.buffers.contains_key(
            id,
        ) {
            if committed.last().node.id == id {
                assert(committed[committed.len() - 1].node.id == id);
            } else {
                let i = choose|i: int|
                    0 <= i < earlier.len() && (#[trigger] earlier[i]).node.id == id;
                assert(committed[i].node.id == id);
            }
        }
    }
}

/// The pixels of a snapshot are those of the buffers that came with the commit:
/// a surface that brought one has its pixels, and one that brought none has no
/// new pixels.
pub proof fn new_pixels_come_with_new_buffers(
    tree: TreeModel,
    committed: Seq<CommittedNode>,
    i: int,
)
    requires
        distinct(nodes_of(committed)),
        0 <= i < committed.len(),
        tree.buffers.contains_key(committed[i].node.id),
    ensures
        match committed[i].assignment {
            Assignment::NewBuffer(Some(imported)) => new_pixels(tree, committed).contains_key(
                committed[i].node.id,
            ) && new_pixels(tree, committed)[committed[i].node.id] == imported.pixels@,
            _ => !new_pixels(tree, committed).contains_key(committed[i].node.id),
        },
    decreases committed.len(),
{
    let id = committed[i].node.id;
    let earlier = committed.drop_last();
    let last = committed.len() - 1;
    if i < last {
        assert forall|a: int, b: int| 0 <= a < b < nodes_of(earlier).len() implies (
        #[trigger] nodes_of(earlier)[a]).id != (#[trigger] nodes_of(earlier)[b]).id by {
            assert(nodes_of(committed)[a].id != nodes_of(committed)[b].id);
        }
        new_pixels_come_with_new_buffers(tree, earlier, i);
        assert(nodes_of(committed)[i].id != nodes_of(committed)[last].id);
        assert(earlier[i] == committed[i]);
    } else {
        commits_keep_layers(tree, earlier, id);
        surfaces_without_commits_bring_nothing(tree, earlier, id);
        assert forall|k: int| 0 <= k < earlier.len() implies (#[trigger] earlier[k]).node.id != id by {
            assert(nodes_of(committed)[k].id != nodes_of(committed)[last].id);
        }
    }
}

proof fn surfaces_without_commits_bring_nothing(
    tree: TreeModel,
    committed: Seq<CommittedNode>,
    id: u64,
)
    ensures
        new_pixels(tree, committed).contains_key(id) ==> exists|k: int|
            0 <= k < committed.len() && (#[trigger] committed[k]).node.id == id,
    decreases committed.len(),
{
    if committed.len() > 0 {
        let earlier = committed.drop_last();
        surfaces_without_commits_bring_nothing(tree, earlier, id);
        if new_pixels(tree, committed).contains_key(id) {
            if committed.last().node.id == id {
                assert(committed[committed.len() - 1].node.id == id);
            } else {
                let k = choose|k: int|
                    0 <= k < earlier.len() && (#[trigger] earlier[k]).node.id == id;
                assert(committed[k].node.id == id);
            }
        }
    }
}

/// The window geometry of a committed tree is the one that came with its surface
/// without a parent; those of other surfaces do not count.
pub proof fn geometry_comes_with_the_root(committed: Seq<CommittedNode>, r: int)
    requires
        0 <= r < committed.len(),
        committed[r].node.parent is None,
        forall|i: int|
            0 <= i < committed.len() && i != r ==> (#[trigger] committed[i]).node.parent is Some,
    ensures
        committed_geometry(committed) == committed[r].geometry,
    decreases committed.len(),
{
    if r < committed.len() - 1 {
        let earlier = committed.drop_last();
        assert(committed[committed.len() - 1].node.parent is Some);
        assert(earlier[r] == committed[r]);
        assert forall|i: int| 0 <= i < earlier.len() && i != r implies (
        #[trigger] earlier[i]).node.parent is Some by {
            assert(committed[i].node.parent is Some);
        }
        geometry_comes_with_the_root(earlier, r);
    }
}

/// The nodes that stay when a surface is taken out are those that do not stand
/// below it; the layers to come are as new as before.
pub proof fn removal_keeps_the_other_nodes(tree: TreeModel, removed: u64, node: TreeNode)
    ensures
        tree.pruned(removed).nodes.contains(node) <==> tree.nodes.contains(node) && !descends(
            tree.nodes,
            node.id,
            removed,
        ),
        tree.pruned(removed).next_layer == tree.next_layer,
        descends(tree.nodes, removed, removed),
{
    let stays = |node: TreeNode| !descends(tree.nodes, node.id, removed);
    broadcast use vstd::seq_lib::group_filter_ensures;

    let kept = tree.nodes.filter(stays);
    assert(tree.pruned(removed).nodes == kept);
    if kept.contains(node) {
        tree.nodes.lemma_filter_contains_rev(stays, node);
        let i = choose|i: int| 0 <= i < kept.len() && kept[i] == node;
        assert(stays(kept[i]));
    }
    if tree.nodes.contains(node) && stays(node) {
        let i = choose|i: int| 0 <= i < tree.nodes.len() && tree.nodes[i] == node;
        assert(kept.contains(tree.nodes[i]));
    }
    assert(ancestor(tree.nodes, removed, 0) == Some(removed));
}

/// The parent of a listed surface is the one that it is listed with, and what
/// stands below its parent stands below all that its parent stands below.
pub proof fn parents_are_those_listed(nodes: Seq<TreeNode>, i: int, above: u64)
    requires
        distinct(nodes),
        0 <= i < nodes.len(),
    ensures
        parent_in(nodes, nodes[i].id) == nodes[i].parent,
        nodes[i].parent is Some && descends(nodes, nodes[i].parent->0, above) ==> descends(
            nodes,
            nodes[i].id,
            above,
        ),
{
    parents_are_found(nodes, nodes[i].id);
    if let Some(parent) = nodes[i].parent {
        if descends(nodes, parent, above) {
            below_the_parent(nodes, nodes[i].id, parent, above);
        }
    }
}

/// Going down to a surface moves the walk by its offset on both axes, and what
/// is placed from there stands by its own offset further, below that surface.
pub proof fn walks_move_by_the_offset(
    context: TraversalContext,
    id: u64,
    offset: SurfaceOffset,
    child: u64,
    further: SurfaceOffset,
)
    requires
        context.reaches(offset),
        context.entered(id, offset).reaches(further),
    ensures
        context.placed(id, offset).x - context.x == offset.x,
        context.placed(id, offset).y - context.y == offset.y,
        context.placed(id, offset).id == id,
        context.placed(id, offset).parent == context.parent,
        context.entered(id, offset).placed(child, further).x - context.x == offset.x + further.x,
        context.entered(id, offset).placed(child, further).y - context.y == offset.y + further.y,
        context.entered(id, offset).placed(child, further).parent == Some(id),
        TraversalContext::start().x == 0 && TraversalContext::start().y == 0,
        TraversalContext::start().parent is None,
{
}

/// A surface has a place just where both of its distances from the root are
/// within what a coordinate holds.
pub proof fn places_end_with_the_coordinates(context: TraversalContext, offset: SurfaceOffset)
    ensures
        context.reaches(offset) <==> -0x8000_0000 <= context.x + offset.x < 0x8000_0000
            && -0x8000_0000 <= context.y + offset.y < 0x8000_0000,
{
}

/// A buffer that a commit keeps has its size of before, with the scale and the
/// transform of the commit.
pub proof fn kept_buffers_are_rescaled(
    tree: TreeModel,
    id: u64,
    scale: i32,
    normal_transform: bool,
)
    ensures
        tree.rescaled(id, scale, normal_transform) is Some <==> scale >= 1
            && tree.buffers.contains_key(id) && tree.buffers[id].metadata is Some,
        tree.rescaled(id, scale, normal_transform) matches Some(metadata) ==> {
            &&& metadata.width == (tree.buffers[id].metadata->0).width
            &&& metadata.height == (tree.buffers[id].metadata->0).height
            &&& metadata.scale == scale && metadata.normal_transform == normal_transform
        },
{
}

/// A subsurface stands at its location within its parent, and any other surface
/// at the origin.
pub proof fn subsurfaces_stand_at_their_location(
    subsurface: bool,
    location: SurfaceOffset,
    offset: SurfaceOffset,
)
    requires
        call_ensures(surface_offset, (subsurface, location), offset),
    ensures
        subsurface ==> offset.x == location.x && offset.y == location.y,
        !subsurface ==> offset.x == 0 && offset.y == 0,
{
}

/// The callbacks of a client that is mapped are answered, whether it can be shown
/// or not.
pub proof fn mapped_clients_are_answered(mapped: bool, displayable: bool, drain: bool)
    requires
        call_ensures(should_drain_callbacks, (mapped, displayable), drain),
    ensures
        drain <==> mapped,
{
}

} // verus!
