//! Plans for the child nodes of a presented surface.
//!
//! A surface node has one child per overlay and one per input rectangle. Nodes
//! that already stand for the same part are kept, the others are replaced.

use vstd::prelude::*;

use crate::number::Vec2;
use crate::scene::{SurfaceContent, SurfaceLayerContent};
#[allow(unused_imports)]
use crate::scene::ContentModel;
use crate::surface::{
    SurfaceContentView, SurfaceId, SurfaceImageEncoding, SurfaceInputPlacement, SurfaceInputRect,
    SurfaceLayerId, SurfaceNode, SurfaceView,
};
#[allow(unused_imports)]
use crate::surface::{InputPlacementModel, input_models};

verus! {

/// Which part of a surface a child node stands for. Overlays use region 0.
#[derive(Clone, Copy, Debug, PartialEq, Eq, Structural)]
pub struct NodeKey {
    pub layer: SurfaceLayerId,
    pub region: usize,
}

/// A child node that was made earlier.
#[derive(Clone, Copy, Debug, PartialEq, Eq, Structural)]
pub struct ChildNode {
    pub key: NodeKey,
    pub node: u64,
}

/// The node that stands for `key`; a later entry replaces an earlier one.
pub open spec fn existing_node(existing: Seq<ChildNode>, key: NodeKey) -> Option<u64>
    decreases existing.len(),
{
    if existing.len() == 0 {
        None
    } else if existing.last().key == key {
        Some(existing.last().node)
    } else {
        existing_node(existing.drop_last(), key)
    }
}

/// Whether `keys` holds `key` before index `end`.
pub open spec fn seen_before(keys: Seq<NodeKey>, end: int, key: NodeKey) -> bool {
    exists|j: int| 0 <= j < end && #[trigger] keys[j] == key
}

/// For each key the node to keep: the first part with a key takes the existing
/// node, any further part with the same key gets a new one.
pub open spec fn kept_nodes(existing: Seq<ChildNode>, keys: Seq<NodeKey>) -> Seq<Option<u64>> {
    Seq::new(
        keys.len(),
        |i: int|
            if seen_before(keys, i, keys[i]) {
                None
            } else {
                existing_node(existing, keys[i])
            },
    )
}

/// Whether a later entry replaces entry `p`.
pub open spec fn replaced_later(existing: Seq<ChildNode>, p: int) -> bool {
    exists|q: int| p < q < existing.len() && #[trigger] existing[q].key == existing[p].key
}

/// Nodes among the first `end` entries that no part keeps.
pub open spec fn dropped_nodes(
    existing: Seq<ChildNode>,
    keys: Seq<NodeKey>,
    end: int,
) -> Seq<u64>
    decreases end,
{
    if end <= 0 {
        Seq::empty()
    } else {
        let dropped = dropped_nodes(existing, keys, end - 1);
        if !replaced_later(existing, end - 1) && !seen_before(
            keys,
            keys.len() as int,
            existing[end - 1].key,
        ) {
            dropped.push(existing[end - 1].node)
        } else {
            dropped
        }
    }
}

fn find_existing(existing: &Vec<ChildNode>, key: NodeKey) -> (node: Option<u64>)
    ensures
        node == existing_node(existing@, key),
{
    let mut node: Option<u64> = None;
    let mut i: usize = 0;
    while i < existing.len()
        invariant
            i <= existing@.len(),
            node == existing_node(existing@.take(i as int), key),
        decreases existing@.len() - i,
    {
        assert(existing@.take(i + 1).drop_last() =~= existing@.take(i as int));
        if existing[i].key == key {
            node = Some(existing[i].node);
        }
        i = i + 1;
    }
    assert(existing@.take(i as int) =~= existing@);
    node
}

fn holds_key(keys: &Vec<NodeKey>, end: usize, key: NodeKey) -> (held: bool)
    requires
        end <= keys@.len(),
    ensures
        held == seen_before(keys@, end as int, key),
{
    let mut i: usize = 0;
    while i < end
        invariant
            i <= end <= keys@.len(),
            forall|k: int| 0 <= k < i ==> #[trigger] keys@[k] != key,
        decreases end - i,
    {
        if keys[i] == key {
            return true;
        }
        i = i + 1;
    }
    false
}

fn is_replaced(existing: &Vec<ChildNode>, p: usize) -> (replaced: bool)
    requires
        p < existing@.len(),
    ensures
        replaced == replaced_later(existing@, p as int),
{
    let count: usize = existing.len();
    let mut q: usize = p + 1;
    while q < count
        invariant
            count == existing@.len(),
            p < q <= count,
            forall|k: int| p < k < q ==> (#[trigger] existing@[k]).key != existing@[p as int].key,
        decreases existing@.len() - q,
    {
        if existing[q].key == existing[p].key {
            return true;
        }
        q = q + 1;
    }
    false
}

/// Which nodes stay and which go.
pub struct ChildPlan {
    /// For each key, the node to keep; `None` asks for a new one.
    pub kept: Vec<Option<u64>>,
    /// Nodes to despawn.
    pub dropped: Vec<u64>,
}

/// Matches the nodes made earlier with the parts of a surface.
pub fn plan_children(existing: &Vec<ChildNode>, keys: &Vec<NodeKey>) -> (plan: ChildPlan)
    ensures
        plan.kept@ == kept_nodes(existing@, keys@),
        plan.dropped@ == dropped_nodes(existing@, keys@, existing@.len() as int),
{
    let mut kept: Vec<Option<u64>> = Vec::new();
    let mut i: usize = 0;
    while i < keys.len()
        invariant
            i <= keys@.len(),
            kept@.len() == i,
            forall|k: int| 0 <= k < i ==> #[trigger] kept@[k] == kept_nodes(existing@, keys@)[k],
        decreases keys@.len() - i,
    {
        if holds_key(keys, i, keys[i]) {
            kept.push(None);
        } else {
            kept.push(find_existing(existing, keys[i]));
        }
        i = i + 1;
    }
    assert(kept@ =~= kept_nodes(existing@, keys@));
    let mut dropped: Vec<u64> = Vec::new();
    let mut p: usize = 0;
    while p < existing.len()
        invariant
            p <= existing@.len(),
            dropped@ == dropped_nodes(existing@, keys@, p as int),
        decreases existing@.len() - p,
    {
        if !is_replaced(existing, p) && !holds_key(keys, keys.len(), existing[p].key) {
            dropped.push(existing[p].node);
        }
        p = p + 1;
    }
    ChildPlan { kept, dropped }
}

/// Target of pointer events on one input rectangle.
#[derive(Clone, Copy, Debug, PartialEq, Eq, Structural)]
pub struct SurfaceInputNode {
    pub surface: SurfaceId,
    pub layer: SurfaceLayerId,
    pub local_origin: Vec2,
}

/// One input rectangle of a presented surface.
#[derive(Clone, Copy, Debug, PartialEq, Eq, Structural)]
pub struct InputPart {
    pub key: NodeKey,
    pub target: SurfaceInputNode,
    /// Position of the layer that the rectangle belongs to.
    pub layer_position: Vec2,
    pub rectangle: SurfaceInputRect,
}

/// Rectangle `region` of one input placement.
pub open spec fn input_part(
    surface: SurfaceId,
    input: InputPlacementModel,
    region: int,
) -> InputPart {
    InputPart {
        key: NodeKey { layer: input.layer, region: region as usize },
        target: SurfaceInputNode {
            surface,
            layer: input.layer,
            local_origin: input.regions[region].position,
        },
        layer_position: input.position,
        rectangle: input.regions[region],
    }
}

/// Every input rectangle of a surface, placement by placement.
pub open spec fn input_parts(surface: SurfaceId, inputs: Seq<InputPlacementModel>) -> Seq<InputPart>
    decreases inputs.len(),
{
    if inputs.len() == 0 {
        Seq::empty()
    } else {
        input_parts(surface, inputs.drop_last()) + Seq::new(
            inputs.last().regions.len(),
            |region: int| input_part(surface, inputs.last(), region),
        )
    }
}

/// Keys of several input rectangles.
pub open spec fn part_keys(parts: Seq<InputPart>) -> Seq<NodeKey> {
    Seq::new(parts.len(), |i: int| parts[i].key)
}

/// Keys of several overlays.
pub open spec fn overlay_keys(overlays: Seq<SurfaceLayerContent>) -> Seq<NodeKey> {
    Seq::new(overlays.len(), |i: int| NodeKey { layer: overlays[i].layer, region: 0 })
}

fn collect_input_parts(surface: SurfaceId, inputs: &Vec<SurfaceInputPlacement>) -> (parts: Vec<
    InputPart,
>)
    ensures
        parts@ == input_parts(surface, input_models(inputs@)),
{
    let ghost models = input_models(inputs@);
    let mut parts: Vec<InputPart> = Vec::new();
    let mut i: usize = 0;
    while i < inputs.len()
        invariant
            i <= inputs@.len(),
            models == input_models(inputs@),
            parts@ == input_parts(surface, models.take(i as int)),
        decreases inputs@.len() - i,
    {
        assert(models.take(i + 1).drop_last() =~= models.take(i as int));
        let ghost before = parts@;
        let input = &inputs[i];
        let mut region: usize = 0;
        while region < input.regions.len()
            invariant
                region <= input.regions@.len(),
                input@ == models[i as int],
                parts@ =~= before + Seq::new(
                    region as nat,
                    |r: int| input_part(surface, models[i as int], r),
                ),
            decreases input.regions@.len() - region,
        {
            let rectangle: SurfaceInputRect = input.regions[region];
            parts.push(
                InputPart {
                    key: NodeKey { layer: input.layer, region },
                    target: SurfaceInputNode {
                        surface,
                        layer: input.layer,
                        local_origin: rectangle.position,
                    },
                    layer_position: input.position,
                    rectangle,
                },
            );
            region = region + 1;
        }
        i = i + 1;
    }
    assert(models.take(i as int) =~= models);
    parts
}

/// Parameters of the material that shows one layer.
#[derive(Clone, Copy, Debug, PartialEq, Eq, Structural)]
pub struct SurfaceMaterial {
    pub image: u64,
    pub view: SurfaceContentView,
    pub width: u32,
    pub height: u32,
    pub encoding_flag: u32,
    pub inverted_flag: u32,
}

/// Shader flag of an image encoding.
pub open spec fn encoding_flag(encoding: SurfaceImageEncoding) -> u32 {
    match encoding {
        SurfaceImageEncoding::LinearStraight => 0,
        SurfaceImageEncoding::EncodedPremultiplied => 1,
        SurfaceImageEncoding::EncodedOpaque => 2,
    }
}

/// The material that shows `view` of `layer`.
pub open spec fn material_of(layer: SurfaceLayerContent, view: SurfaceContentView) -> SurfaceMaterial {
    SurfaceMaterial {
        image: layer.image,
        view,
        width: layer.width,
        height: layer.height,
        encoding_flag: encoding_flag(layer.encoding),
        inverted_flag: if layer.y_inverted {
            1
        } else {
            0
        },
    }
}

/// The material that shows `view` of `layer`.
pub fn surface_material(layer: &SurfaceLayerContent, view: SurfaceContentView) -> (material:
    SurfaceMaterial)
    ensures
        material == material_of(*layer, view),
        material.view == view,
        material.image == layer.image,
{
    let encoding_flag: u32 = match layer.encoding {
        SurfaceImageEncoding::LinearStraight => 0,
        SurfaceImageEncoding::EncodedPremultiplied => 1,
        SurfaceImageEncoding::EncodedOpaque => 2,
    };
    let inverted_flag: u32 = if layer.y_inverted {
        1
    } else {
        0
    };
    SurfaceMaterial {
        image: layer.image,
        view,
        width: layer.width,
        height: layer.height,
        encoding_flag,
        inverted_flag,
    }
}

/// One overlay of a presented surface.
#[derive(Clone, Copy, Debug, PartialEq, Eq, Structural)]
pub struct OverlayPart {
    pub key: NodeKey,
    pub material: SurfaceMaterial,
    pub layer_position: Vec2,
    pub size: Vec2,
}

/// The part that shows one overlay: its own material, at its logical size.
pub open spec fn overlay_part(overlay: SurfaceLayerContent) -> OverlayPart {
    OverlayPart {
        key: NodeKey { layer: overlay.layer, region: 0 },
        material: material_of(overlay, overlay.view),
        layer_position: overlay.position,
        size: overlay.view.logical_size(),
    }
}

/// Every overlay of a surface, from the lowest up.
pub open spec fn overlay_parts(overlays: Seq<SurfaceLayerContent>) -> Seq<OverlayPart> {
    Seq::new(overlays.len(), |i: int| overlay_part(overlays[i]))
}

/// What to do with a surface node and its children.
pub enum SurfaceNodePlan {
    /// The surface shows nothing: hide the node and drop its children.
    Hide { dropped_overlays: Vec<u64>, dropped_inputs: Vec<u64> },
    Show {
        /// Root view to present.
        view: SurfaceContentView,
        /// Origin to subtract from the positions of the children.
        origin: Vec2,
        /// Whether the node's layout differs from the view's logical size.
        layout_changed: bool,
        /// Material of the node itself.
        material: SurfaceMaterial,
        overlay_parts: Vec<OverlayPart>,
        overlays: ChildPlan,
        input_parts: Vec<InputPart>,
        inputs: ChildPlan,
    },
}

/// The root view that a node presents and the origin of its coordinates.
pub open spec fn presented_view(view: SurfaceView, content: ContentModel) -> (
    SurfaceContentView,
    Vec2,
) {
    match view {
        SurfaceView::FullSurface => (content.root.view, Vec2::origin()),
        SurfaceView::WindowGeometry => (
            content.window_geometry.view,
            content.window_geometry.origin,
        ),
    }
}

/// All existing nodes.
pub open spec fn all_nodes(existing: Seq<ChildNode>) -> Seq<u64> {
    Seq::new(existing.len(), |i: int| existing[i].node)
}

fn collect_nodes(existing: &Vec<ChildNode>) -> (nodes: Vec<u64>)
    ensures
        nodes@ == all_nodes(existing@),
{
    let mut nodes: Vec<u64> = Vec::new();
    let mut i: usize = 0;
    while i < existing.len()
        invariant
            i <= existing@.len(),
            nodes@.len() == i,
            forall|k: int| 0 <= k < i ==> #[trigger] nodes@[k] == existing@[k].node,
        decreases existing@.len() - i,
    {
        nodes.push(existing[i].node);
        i = i + 1;
    }
    assert(nodes@ =~= all_nodes(existing@));
    nodes
}

/// Plans the layout and the children of one surface node.
///
/// `layout` is the size that the node is laid out with, if it is shown.
pub fn plan_surface_node(
    node: SurfaceNode,
    layout: Option<Vec2>,
    content: Option<&SurfaceContent>,
    existing_overlays: &Vec<ChildNode>,
    existing_inputs: &Vec<ChildNode>,
) -> (plan: SurfaceNodePlan)
    ensures
        match plan {
            SurfaceNodePlan::Hide { dropped_overlays, dropped_inputs } => {
                &&& content is None
                &&& dropped_overlays@ == all_nodes(existing_overlays@)
                &&& dropped_inputs@ == all_nodes(existing_inputs@)
            },
            SurfaceNodePlan::Show {
                view,
                origin,
                layout_changed,
                material,
                overlay_parts: drawn,
                overlays,
                input_parts: parts,
                inputs,
            } => {
                &&& content is Some
                &&& (view, origin) == presented_view(node.view, (content->0)@)
                &&& layout_changed == (layout is None || !(layout->0).same(view.logical_size()))
                &&& node.view is WindowGeometry ==> view == (content->0)@.window_geometry.view
                    && origin == (content->0)@.window_geometry.origin
                &&& node.view is FullSurface ==> view == (content->0)@.root.view
                &&& material == material_of((content->0)@.root, view)
                &&& material.view == view
                &&& drawn@ == overlay_parts((content->0)@.overlays)
                &&& forall|i: int|
                    0 <= i < drawn@.len() ==> (#[trigger] drawn@[i]).material.view
                        == (content->0)@.overlays[i].view
                &&& overlays.kept@ == kept_nodes(
                    existing_overlays@,
                    overlay_keys((content->0)@.overlays),
                )
                &&& overlays.dropped@ == dropped_nodes(
                    existing_overlays@,
                    overlay_keys((content->0)@.overlays),
                    existing_overlays@.len() as int,
                )
                &&& parts@ == input_parts(node.surface, (content->0)@.inputs)
                &&& inputs.kept@ == kept_nodes(existing_inputs@, part_keys(parts@))
                &&& inputs.dropped@ == dropped_nodes(
                    existing_inputs@,
                    part_keys(parts@),
                    existing_inputs@.len() as int,
                )
            },
        },
{
    match content {
        None => SurfaceNodePlan::Hide {
            dropped_overlays: collect_nodes(existing_overlays),
            dropped_inputs: collect_nodes(existing_inputs),
        },
        Some(content) => {
            let (view, origin) = match node.view {
                SurfaceView::FullSurface => (content.root.view, Vec2::zero()),
                SurfaceView::WindowGeometry => (
                    content.window_geometry.view,
                    content.window_geometry.origin,
                ),
            };
            let size = Vec2::new(view.logical_width, view.logical_height);
            let layout_changed: bool = match layout {
                Some(layout) => !layout.equals(size),
                None => true,
            };
            let material = surface_material(&content.root, view);
            let mut drawn: Vec<OverlayPart> = Vec::new();
            let mut keys: Vec<NodeKey> = Vec::new();
            let mut i: usize = 0;
            while i < content.overlays.len()
                invariant
                    i <= content.overlays@.len(),
                    drawn@ =~= overlay_parts(content.overlays@).take(i as int),
                    keys@ =~= overlay_keys(content.overlays@).take(i as int),
                decreases content.overlays@.len() - i,
            {
                let overlay = content.overlays[i];
                let key = NodeKey { layer: overlay.layer, region: 0 };
                drawn.push(
                    OverlayPart {
                        key,
                        material: surface_material(&overlay, overlay.view),
                        layer_position: overlay.position,
                        size: Vec2::new(overlay.view.logical_width, overlay.view.logical_height),
                    },
                );
                keys.push(key);
                i = i + 1;
            }
            assert(drawn@ =~= overlay_parts(content.overlays@));
            assert(keys@ =~= overlay_keys(content.overlays@));
            let overlays = plan_children(existing_overlays, &keys);
            let parts = collect_input_parts(node.surface, &content.inputs);
            let mut input_keys: Vec<NodeKey> = Vec::new();
            let mut n: usize = 0;
            while n < parts.len()
                invariant
                    n <= parts@.len(),
                    input_keys@ =~= part_keys(parts@).take(n as int),
                decreases parts@.len() - n,
            {
                input_keys.push(parts[n].key);
                n = n + 1;
            }
            assert(input_keys@ =~= part_keys(parts@));
            let inputs = plan_children(existing_inputs, &input_keys);
            SurfaceNodePlan::Show {
                view,
                origin,
                layout_changed,
                material,
                overlay_parts: drawn,
                overlays,
                input_parts: parts,
                inputs,
            }
        },
    }
}

/// The children of a surface node once each part has its node.
pub struct NodeChildren {
    /// The children in the order in which they lie, the lowest first.
    pub ordered: Vec<u64>,
    /// The nodes that stand for the overlays from now on.
    pub overlays: Vec<ChildNode>,
    /// The nodes that stand for the input rectangles from now on.
    pub inputs: Vec<ChildNode>,
}

/// Keys of several overlay parts.
pub open spec fn drawn_keys(parts: Seq<OverlayPart>) -> Seq<NodeKey> {
    Seq::new(parts.len(), |i: int| parts[i].key)
}

/// Each node under the key of the part that it stands for.
pub open spec fn standing_nodes(keys: Seq<NodeKey>, nodes: Seq<u64>) -> Seq<ChildNode> {
    Seq::new(keys.len(), |i: int| ChildNode { key: keys[i], node: nodes[i] })
}

/// Orders the children of a surface node: overlays first, in their order, then
/// the input rectangles above them. `overlay_nodes` and `input_nodes` stand for
/// the parts at the same places, kept or newly made.
pub fn settle_children(
    overlay_parts: &Vec<OverlayPart>,
    overlay_nodes: &Vec<u64>,
    input_parts: &Vec<InputPart>,
    input_nodes: &Vec<u64>,
) -> (children: NodeChildren)
    requires
        overlay_parts@.len() == overlay_nodes@.len(),
        input_parts@.len() == input_nodes@.len(),
    ensures
        children.ordered@ == overlay_nodes@ + input_nodes@,
        children.overlays@ == standing_nodes(drawn_keys(overlay_parts@), overlay_nodes@),
        children.inputs@ == standing_nodes(part_keys(input_parts@), input_nodes@),
{
    let mut ordered: Vec<u64> = Vec::new();
    let mut overlays: Vec<ChildNode> = Vec::new();
    let mut i: usize = 0;
    while i < overlay_parts.len()
        invariant
            i <= overlay_parts@.len(),
            overlay_parts@.len() == overlay_nodes@.len(),
            ordered@ =~= overlay_nodes@.take(i as int),
            overlays@ =~= standing_nodes(drawn_keys(overlay_parts@), overlay_nodes@).take(i as int),
        decreases overlay_parts@.len() - i,
    {
        ordered.push(overlay_nodes[i]);
        overlays.push(ChildNode { key: overlay_parts[i].key, node: overlay_nodes[i] });
        i = i + 1;
    }
    let mut inputs: Vec<ChildNode> = Vec::new();
    let mut n: usize = 0;
    while n < input_parts.len()
        invariant
            n <= input_parts@.len(),
            input_parts@.len() == input_nodes@.len(),
            ordered@ =~= overlay_nodes@ + input_nodes@.take(n as int),
            inputs@ =~= standing_nodes(part_keys(input_parts@), input_nodes@).take(n as int),
        decreases input_parts@.len() - n,
    {
        ordered.push(input_nodes[n]);
        inputs.push(ChildNode { key: input_parts[n].key, node: input_nodes[n] });
        n = n + 1;
    }
    NodeChildren { ordered, overlays, inputs }
}

/// A surface whose parts stay as they are keeps every node, and drops none.
pub proof fn unchanged_parts_keep_their_nodes(keys: Seq<NodeKey>, nodes: Seq<u64>)
    requires
        keys.len() == nodes.len(),
        keys.no_duplicates(),
    ensures
        kept_nodes(standing_nodes(keys, nodes), keys) == Seq::new(
            nodes.len(),
            |i: int| Some(nodes[i]),
        ),
        dropped_nodes(standing_nodes(keys, nodes), keys, keys.len() as int) == Seq::<u64>::empty(),
{
    let standing = standing_nodes(keys, nodes);
    assert forall|i: int| 0 <= i < keys.len() implies #[trigger] kept_nodes(standing, keys)[i]
        == Some(nodes[i]) by {
        unique_key_is_found(standing, i);
    }
    assert(kept_nodes(standing, keys) =~= Seq::new(nodes.len(), |i: int| Some(nodes[i])));
    wanted_nodes_are_not_dropped(standing, keys, keys.len() as int);
}

proof fn wanted_nodes_are_not_dropped(existing: Seq<ChildNode>, keys: Seq<NodeKey>, end: int)
    requires
        0 <= end <= existing.len(),
        forall|p: int|
            0 <= p < existing.len() ==> seen_before(
                keys,
                keys.len() as int,
                (#[trigger] existing[p]).key,
            ),
    ensures
        dropped_nodes(existing, keys, end) == Seq::<u64>::empty(),
    decreases end,
{
    if end > 0 {
        wanted_nodes_are_not_dropped(existing, keys, end - 1);
        assert(seen_before(keys, keys.len() as int, existing[end - 1].key));
    }
}

/// Where no two existing nodes stand for one part, every node is either kept or
/// dropped.
pub proof fn existing_nodes_are_kept_or_dropped(
    existing: Seq<ChildNode>,
    keys: Seq<NodeKey>,
    p: int,
)
    requires
        0 <= p < existing.len(),
        forall|i: int, j: int|
            0 <= i < j < existing.len() ==> (#[trigger] existing[i]).key != (
            #[trigger] existing[j]).key,
    ensures
        kept_nodes(existing, keys).contains(Some(existing[p].node)) || dropped_nodes(
            existing,
            keys,
            existing.len() as int,
        ).contains(existing[p].node),
{
    let key = existing[p].key;
    if seen_before(keys, keys.len() as int, key) {
        first_occurrence(keys, key, keys.len() as int);
        let i = choose|i: int|
            0 <= i < keys.len() && #[trigger] keys[i] == key && !seen_before(keys, i, key);
        unique_key_is_found(existing, p);
        assert(kept_nodes(existing, keys)[i] == Some(existing[p].node));
    } else {
        assert(!replaced_later(existing, p));
        dropped_node_is_listed(existing, keys, p, existing.len() as int);
    }
}

proof fn first_occurrence(keys: Seq<NodeKey>, key: NodeKey, end: int)
    requires
        0 <= end <= keys.len(),
        seen_before(keys, end, key),
    ensures
        exists|i: int|
            0 <= i < end && #[trigger] keys[i] == key && !seen_before(keys, i, key),
    decreases end,
{
    let j = choose|j: int| 0 <= j < end && #[trigger] keys[j] == key;
    if seen_before(keys, j, key) {
        first_occurrence(keys, key, j);
    }
}

proof fn unique_key_is_found(existing: Seq<ChildNode>, p: int)
    requires
        0 <= p < existing.len(),
        forall|i: int, j: int|
            0 <= i < j < existing.len() ==> (#[trigger] existing[i]).key != (
            #[trigger] existing[j]).key,
    ensures
        existing_node(existing, existing[p].key) == Some(existing[p].node),
    decreases existing.len(),
{
    if p < existing.len() - 1 {
        assert(existing.drop_last()[p] == existing[p]);
        unique_key_is_found(existing.drop_last(), p);
    }
}

proof fn dropped_node_is_listed(
    existing: Seq<ChildNode>,
    keys: Seq<NodeKey>,
    p: int,
    end: int,
)
    requires
        0 <= p < end <= existing.len(),
        !replaced_later(existing, p),
        !seen_before(keys, keys.len() as int, existing[p].key),
    ensures
        dropped_nodes(existing, keys, end).contains(existing[p].node),
    decreases end,
{
    let dropped = dropped_nodes(existing, keys, end);
    if p == end - 1 {
        assert(dropped.last() == existing[p].node);
    } else {
        dropped_node_is_listed(existing, keys, p, end - 1);
        let before = dropped_nodes(existing, keys, end - 1);
        let k = choose|k: int| 0 <= k < before.len() && before[k] == existing[p].node;
        assert(dropped[k] == existing[p].node);
    }
}

/// A material draws just the view that it is made for, from the image of its
/// layer at the layer's own size. The shader is told how the image is encoded
/// and whether it is upside down.
pub proof fn materials_draw_the_asked_view(layer: SurfaceLayerContent, view: SurfaceContentView)
    ensures
        material_of(layer, view).view == view,
        material_of(layer, view).image == layer.image,
        material_of(layer, view).width == layer.width,
        material_of(layer, view).height == layer.height,
        material_of(layer, view).inverted_flag == 1 <==> layer.y_inverted,
        material_of(layer, view).inverted_flag == 0 <==> !layer.y_inverted,
        material_of(layer, view).encoding_flag == 0 <==> layer.encoding is LinearStraight,
        material_of(layer, view).encoding_flag == 1 <==> layer.encoding is EncodedPremultiplied,
        material_of(layer, view).encoding_flag == 2 <==> layer.encoding is EncodedOpaque,
{
}

/// A node that presents the window draws the view of the window geometry, with
/// coordinates that start at the geometry's origin. One that presents the full
/// surface draws the root's whole view from zero. Both draw the root's image.
pub proof fn nodes_draw_what_they_present(content: ContentModel)
    ensures
        ({
            let (view, origin) = presented_view(SurfaceView::WindowGeometry, content);
            let material = material_of(content.root, view);
            &&& view == content.window_geometry.view && origin == content.window_geometry.origin
            &&& material.view == content.window_geometry.view
            &&& material.image == content.root.image
            &&& material.width == content.root.width && material.height == content.root.height
        }),
        ({
            let (view, origin) = presented_view(SurfaceView::FullSurface, content);
            let material = material_of(content.root, view);
            &&& view == content.root.view && origin.x.bits == 0 && origin.y.bits == 0
            &&& material.view == content.root.view
            &&& material.image == content.root.image
            &&& material.width == content.root.width && material.height == content.root.height
        }),
{
}

/// Each overlay is drawn by one part, in the overlays' order: with its own image
/// and its own view, where the overlay stands, as large as its view is.
pub proof fn overlays_are_drawn_as_they_are(overlays: Seq<SurfaceLayerContent>, i: int)
    requires
        0 <= i < overlays.len(),
    ensures
        ({
            let part = overlay_parts(overlays)[i];
            &&& overlay_parts(overlays).len() == overlays.len()
            &&& part.key.layer == overlays[i].layer && part.key.region == 0
            &&& part.material.view == overlays[i].view
            &&& part.material.image == overlays[i].image
            &&& part.material.width == overlays[i].width
            &&& part.material.height == overlays[i].height
            &&& part.layer_position == overlays[i].position
            &&& part.size.x == overlays[i].view.logical_width
            &&& part.size.y == overlays[i].view.logical_height
            &&& overlay_keys(overlays)[i] == part.key
            &&& drawn_keys(overlay_parts(overlays))[i] == part.key
        }),
{
}

/// Every input rectangle of a surface has a part: it takes events for the
/// surface and the layer that the rectangle belongs to, measured from the
/// rectangle's own corner, and stands where its layer stands.
pub proof fn input_rectangles_have_parts(
    surface: SurfaceId,
    inputs: Seq<InputPlacementModel>,
    i: int,
    region: int,
)
    requires
        0 <= i < inputs.len(),
        0 <= region < inputs[i].regions.len() <= usize::MAX,
    ensures
        exists|p: int|
            #![trigger input_parts(surface, inputs)[p]]
            0 <= p < input_parts(surface, inputs).len() && input_parts(surface, inputs)[p].key.layer
                == inputs[i].layer && input_parts(surface, inputs)[p].key.region == region
                && input_parts(surface, inputs)[p].target.surface == surface && input_parts(
                surface,
                inputs,
            )[p].target.layer == inputs[i].layer && input_parts(
                surface,
                inputs,
            )[p].target.local_origin == inputs[i].regions[region].position && input_parts(
                surface,
                inputs,
            )[p].layer_position == inputs[i].position && input_parts(surface, inputs)[p].rectangle
                == inputs[i].regions[region],
    decreases inputs.len(),
{
    let earlier = inputs.drop_last();
    let before = input_parts(surface, earlier);
    let parts = input_parts(surface, inputs);
    if i < earlier.len() {
        assert(earlier[i] == inputs[i]);
        input_rectangles_have_parts(surface, earlier, i, region);
        let p = choose|p: int|
            #![trigger before[p]]
            0 <= p < before.len() && before[p].key.layer == inputs[i].layer && before[p].key.region
                == region && before[p].target.surface == surface && before[p].target.layer
                == inputs[i].layer && before[p].target.local_origin
                == inputs[i].regions[region].position && before[p].layer_position
                == inputs[i].position && before[p].rectangle == inputs[i].regions[region];
        assert(parts[p] == before[p]);
    } else {
        let p = before.len() + region;
        assert(parts[p] == input_part(surface, inputs.last(), region));
    }
}

/// Every input part stands for a rectangle of one of the placements.
pub proof fn input_parts_have_rectangles(
    surface: SurfaceId,
    inputs: Seq<InputPlacementModel>,
    p: int,
)
    requires
        0 <= p < input_parts(surface, inputs).len(),
    ensures
        exists|i: int, region: int|
            #![trigger inputs[i].regions[region]]
            0 <= i < inputs.len() && 0 <= region < inputs[i].regions.len() && input_parts(
                surface,
                inputs,
            )[p].rectangle == inputs[i].regions[region] && input_parts(
                surface,
                inputs,
            )[p].target.layer == inputs[i].layer && input_parts(surface, inputs)[p].layer_position
                == inputs[i].position,
        input_parts(surface, inputs)[p].target.surface == surface,
        input_parts(surface, inputs)[p].target.layer == input_parts(surface, inputs)[p].key.layer,
        input_parts(surface, inputs)[p].target.local_origin == input_parts(
            surface,
            inputs,
        )[p].rectangle.position,
        part_keys(input_parts(surface, inputs))[p] == input_parts(surface, inputs)[p].key,
    decreases inputs.len(),
{
    let earlier = inputs.drop_last();
    let before = input_parts(surface, earlier);
    let parts = input_parts(surface, inputs);
    if p < before.len() {
        input_parts_have_rectangles(surface, earlier, p);
        assert(parts[p] == before[p]);
        let (i, region) = choose|i: int, region: int|
            #![trigger earlier[i].regions[region]]
            0 <= i < earlier.len() && 0 <= region < earlier[i].regions.len() && before[p].rectangle
                == earlier[i].regions[region] && before[p].target.layer == earlier[i].layer
                && before[p].layer_position == earlier[i].position;
        assert(inputs[i].regions[region] == earlier[i].regions[region]);
    } else {
        let i = inputs.len() - 1;
        let region = p - before.len();
        assert(parts[p] == input_part(surface, inputs.last(), region));
        assert(inputs[i].regions[region] == parts[p].rectangle);
    }
}

/// A part keeps only a node that stood for it before, and no two parts keep the
/// node of one key.
pub proof fn kept_nodes_stood_for_the_part(
    existing: Seq<ChildNode>,
    keys: Seq<NodeKey>,
    i: int,
    j: int,
)
    requires
        0 <= i < keys.len(),
        0 <= j < keys.len(),
    ensures
        kept_nodes(existing, keys).len() == keys.len(),
        kept_nodes(existing, keys)[i] matches Some(node) ==> existing.contains(
            ChildNode { key: keys[i], node },
        ),
        kept_nodes(existing, keys)[j] matches Some(node) ==> existing.contains(
            ChildNode { key: keys[j], node },
        ),
        kept_nodes(existing, keys)[i] is Some && kept_nodes(existing, keys)[j] is Some && i < j
            ==> keys[i] != keys[j],
{
    existing_node_is_listed(existing, keys[i]);
    existing_node_is_listed(existing, keys[j]);
    if i < j && keys[i] == keys[j] {
        assert(seen_before(keys, j, keys[j]));
    }
}

proof fn existing_node_is_listed(existing: Seq<ChildNode>, key: NodeKey)
    ensures
        existing_node(existing, key) matches Some(node) ==> existing.contains(
            ChildNode { key, node },
        ),
    decreases existing.len(),
{
    if existing.len() > 0 {
        let earlier = existing.drop_last();
        if existing.last().key == key {
            assert(existing[existing.len() - 1] == (ChildNode { key, node: existing.last().node }));
        } else {
            existing_node_is_listed(earlier, key);
            if let Some(node) = existing_node(earlier, key) {
                let p = choose|p: int|
                    0 <= p < earlier.len() && earlier[p] == (ChildNode { key, node });
                assert(existing[p] == earlier[p]);
            }
        }
    }
}

/// A node is dropped only where no part has its key.
pub proof fn dropped_nodes_stand_for_nothing(
    existing: Seq<ChildNode>,
    keys: Seq<NodeKey>,
    end: int,
    k: int,
)
    requires
        0 <= end <= existing.len(),
        0 <= k < dropped_nodes(existing, keys, end).len(),
    ensures
        exists|p: int|
            #![trigger existing[p]]
            0 <= p < end && existing[p].node == dropped_nodes(existing, keys, end)[k]
                && !keys.contains(existing[p].key),
    decreases end,
{
    let before = dropped_nodes(existing, keys, end - 1);
    if k < before.len() {
        dropped_nodes_stand_for_nothing(existing, keys, end - 1, k);
    } else {
        let key = existing[end - 1].key;
        if keys.contains(key) {
            let i = choose|i: int| 0 <= i < keys.len() && keys[i] == key;
            assert(seen_before(keys, keys.len() as int, key));
        }
        assert(existing[end - 1].node == dropped_nodes(existing, keys, end)[k]);
    }
}

/// Each node stands under the key of its own part; a surface that shows nothing
/// drops every node that it had.
pub proof fn nodes_stand_under_their_keys(
    keys: Seq<NodeKey>,
    nodes: Seq<u64>,
    existing: Seq<ChildNode>,
)
    requires
        keys.len() == nodes.len(),
    ensures
        standing_nodes(keys, nodes).len() == keys.len(),
        forall|i: int|
            0 <= i < keys.len() ==> (#[trigger] standing_nodes(keys, nodes)[i]).key == keys[i]
                && standing_nodes(keys, nodes)[i].node == nodes[i],
        all_nodes(existing).len() == existing.len(),
        forall|i: int|
            0 <= i < existing.len() ==> #[trigger] all_nodes(existing)[i] == existing[i].node,
{
}

} // verus!
