//! The registry of client surfaces and what is shown of each.
//!
//! A surface has an entry while its role is known, an entity while the entry's
//! scene object is alive, and content while it is mapped with valid geometry.

use std::collections::HashMap;
use vstd::prelude::*;

use crate::images::{Images, ImageModel, ImagesModel};
use crate::number::Vec2;
use crate::pixels::unpremultiply_bgra;
#[allow(unused_imports)]
use crate::pixels::straight_bgra;
use crate::surface::{
    AppPopup, HostSurfaceEvent, HostSurfaceEventKind, MappedSurface, SurfaceBufferContent,
    SurfaceBufferUpdate, SurfaceContentView, SurfaceEventQueue, SurfaceId, SurfaceImageEncoding,
    SurfaceInputPlacement, SurfaceLayerId, SurfaceLayerPlacement, SurfaceTreeSnapshot,
    SurfaceWindowGeometry, WindowDecoration, WindowInteractionRequest, validate_view,
};
#[allow(unused_imports)]
use crate::surface::{
    BufferContentModel, BufferUpdateModel, EventKindModel, EventModel, InputPlacementModel,
    SnapshotModel, SurfaceRenderImage, WindowInteractionRequestKind, buffer_models, input_models,
    merged_snapshot,
};
use crate::table::table_keys;

verus! {

broadcast use vstd::std_specs::hash::group_hash_axioms;

/// Whether one of `buffers` updates `layer`.
pub open spec fn lists_layer(buffers: Seq<BufferUpdateModel>, layer: u64) -> bool {
    exists|i: int| 0 <= i < buffers.len() && #[trigger] buffers[i].layer.0 == layer
}

/// Whether the extent is nonzero and copied pixels fill it exactly.
pub open spec fn valid_buffer(buffer: BufferUpdateModel) -> bool {
    &&& buffer.width > 0
    &&& buffer.height > 0
    &&& buffer.content matches BufferContentModel::Pixels(pixels) ==> {
        &&& pixels.len() == buffer.width * buffer.height * 4
        &&& pixels.len() <= u32::MAX
    }
}

/// Whether the placement is finite, on an updated layer, with nonempty regions.
pub open spec fn valid_input(buffers: Seq<BufferUpdateModel>, input: InputPlacementModel) -> bool {
    &&& lists_layer(buffers, input.layer.0)
    &&& input.position.finite()
    &&& forall|k: int| 0 <= k < input.regions.len() ==> (#[trigger] input.regions[k]).valid()
}

/// Whether a snapshot can be applied.
pub open spec fn valid_snapshot(snapshot: SnapshotModel) -> bool {
    &&& forall|i: int|
        0 <= i < snapshot.buffers.len() ==> valid_buffer(#[trigger] snapshot.buffers[i])
    &&& forall|i: int, j: int|
        0 <= i < j < snapshot.buffers.len() ==> (#[trigger] snapshot.buffers[i]).layer != (
        #[trigger] snapshot.buffers[j]).layer
    &&& snapshot.root is Some == snapshot.window_geometry is Some
    &&& snapshot.window_geometry matches Some(geometry) ==> geometry.origin.finite()
    &&& forall|i: int|
        0 <= i < snapshot.inputs.len() ==> valid_input(
            snapshot.buffers,
            #[trigger] snapshot.inputs[i],
        )
}

fn layer_is_listed(buffers: &Vec<SurfaceBufferUpdate>, layer: u64) -> (listed: bool)
    ensures
        listed == lists_layer(buffer_models(buffers@), layer),
{
    let mut i: usize = 0;
    while i < buffers.len()
        invariant
            i <= buffers@.len(),
            forall|k: int|
                0 <= k < i ==> (#[trigger] buffer_models(buffers@)[k]).layer.0 != layer,
        decreases buffers@.len() - i,
    {
        if buffers[i].layer.0 == layer {
            assert(buffer_models(buffers@)[i as int].layer.0 == layer);
            return true;
        }
        i = i + 1;
    }
    false
}

fn validate_buffer(buffer: &SurfaceBufferUpdate) -> (valid: bool)
    ensures
        valid == valid_buffer(buffer@),
{
    if buffer.width == 0 || buffer.height == 0 {
        return false;
    }
    match &buffer.content {
        SurfaceBufferContent::Pixels(pixels) => {
            proof {
                bytes_exceed_pixels(buffer.width as int, buffer.height as int);
            }
            match buffer.width.checked_mul(buffer.height) {
                Some(count) => match count.checked_mul(4) {
                    Some(bytes) => pixels.len() == bytes as usize,
                    None => false,
                },
                None => false,
            }
        },
        _ => true,
    }
}

proof fn bytes_exceed_pixels(width: int, height: int)
    requires
        width > 0,
        height > 0,
    ensures
        width * height > 0,
        width * height * 4 == (width * height) * 4,
{
    assert(width * height > 0) by (nonlinear_arith)
        requires
            width > 0,
            height > 0,
    ;
}

fn validate_input(
    buffers: &Vec<SurfaceBufferUpdate>,
    input: &SurfaceInputPlacement,
) -> (valid: bool)
    ensures
        valid == valid_input(buffer_models(buffers@), input@),
{
    if !layer_is_listed(buffers, input.layer.0) || !input.position.is_finite() {
        return false;
    }
    let mut k: usize = 0;
    while k < input.regions.len()
        invariant
            k <= input.regions@.len(),
            forall|r: int| 0 <= r < k ==> (#[trigger] input@.regions[r]).valid(),
        decreases input.regions@.len() - k,
    {
        if !input.regions[k].is_valid() {
            assert(!input@.regions[k as int].valid());
            return false;
        }
        k = k + 1;
    }
    true
}

/// Whether `snapshot` can be applied.
pub fn validate_snapshot(snapshot: &SurfaceTreeSnapshot) -> (valid: bool)
    ensures
        valid == valid_snapshot(snapshot@),
{
    let mut i: usize = 0;
    while i < snapshot.buffers.len()
        invariant
            i <= snapshot.buffers@.len(),
            forall|k: int| 0 <= k < i ==> valid_buffer(#[trigger] snapshot@.buffers[k]),
            forall|k: int, m: int|
                0 <= k < m < i ==> (#[trigger] snapshot@.buffers[k]).layer != (
                #[trigger] snapshot@.buffers[m]).layer,
        decreases snapshot.buffers@.len() - i,
    {
        if !validate_buffer(&snapshot.buffers[i]) {
            assert(!valid_buffer(snapshot@.buffers[i as int]));
            return false;
        }
        let mut k: usize = 0;
        while k < i
            invariant
                k <= i < snapshot.buffers@.len(),
                forall|m: int|
                    0 <= m < k ==> (#[trigger] snapshot@.buffers[m]).layer
                        != snapshot@.buffers[i as int].layer,
            decreases i - k,
        {
            if snapshot.buffers[k].layer == snapshot.buffers[i].layer {
                assert(snapshot@.buffers[k as int].layer == snapshot@.buffers[i as int].layer);
                return false;
            }
            k = k + 1;
        }
        i = i + 1;
    }
    match (snapshot.root, snapshot.window_geometry) {
        (Some(_), Some(geometry)) => {
            if !geometry.origin.is_finite() {
                return false;
            }
        },
        (None, None) => {},
        _ => {
            return false;
        },
    }
    let mut n: usize = 0;
    while n < snapshot.inputs.len()
        invariant
            n <= snapshot.inputs@.len(),
            forall|k: int|
                0 <= k < n ==> valid_input(snapshot@.buffers, #[trigger] snapshot@.inputs[k]),
        decreases snapshot.inputs@.len() - n,
    {
        if !validate_input(&snapshot.buffers, &snapshot.inputs[n]) {
            assert(!valid_input(snapshot@.buffers, snapshot@.inputs[n as int]));
            return false;
        }
        n = n + 1;
    }
    true
}

/// The image that backs one layer of a surface.
#[derive(Clone, Copy, Debug, PartialEq, Eq, Structural)]
pub struct SurfaceBufferAsset {
    pub image: u64,
    pub width: u32,
    pub height: u32,
    pub extent: Vec2,
    pub opaque: bool,
    pub encoding: SurfaceImageEncoding,
    pub y_inverted: bool,
}

/// What the updates of one snapshot leave of the layers and the images.
#[verifier::ext_equal]
pub struct LayerState {
    pub buffers: Map<u64, SurfaceBufferAsset>,
    pub images: ImagesModel,
}

impl LayerState {
    /// Images of the layers that `updates` no longer lists.
    pub open spec fn stale_images(self, updates: Seq<BufferUpdateModel>) -> Set<u64> {
        Set::new(
            |handle: u64|
                exists|layer: u64| #[trigger]
                    self.buffers.contains_key(layer) && !lists_layer(updates, layer)
                        && self.buffers[layer].image == handle,
        )
    }

    /// The state without the layers that `updates` no longer lists.
    pub open spec fn trimmed(self, updates: Seq<BufferUpdateModel>) -> LayerState {
        LayerState {
            buffers: self.buffers.restrict(Set::new(|layer: u64| lists_layer(updates, layer))),
            images: ImagesModel {
                entries: self.images.entries.remove_keys(self.stale_images(updates)),
                next: self.images.next,
            },
        }
    }

    /// The state after one update.
    pub open spec fn updated(self, update: BufferUpdateModel) -> LayerState {
        let layer = update.layer.0;
        let known = self.buffers.contains_key(layer);
        match update.content {
            BufferContentModel::Pixels(pixels) => {
                let pixels = if update.opaque {
                    pixels
                } else {
                    straight_bgra(pixels)
                };
                let previous = self.buffers[layer].image;
                let reused = known && self.images.entries.contains_key(previous)
                    && self.images.entries[previous].writable;
                let added = self.images.added(
                    ImageModel {
                        width: update.width,
                        height: update.height,
                        pixels,
                        writable: true,
                    },
                );
                LayerState {
                    buffers: self.buffers.insert(
                        layer,
                        SurfaceBufferAsset {
                            image: if reused {
                                previous
                            } else {
                                self.images.next
                            },
                            width: update.width,
                            height: update.height,
                            extent: update.extent,
                            opaque: update.opaque,
                            encoding: SurfaceImageEncoding::LinearStraight,
                            y_inverted: false,
                        },
                    ),
                    images: if reused {
                        self.images.rewritten(previous, update.width, update.height, pixels)
                    } else if known {
                        added.removed(previous)
                    } else {
                        added
                    },
                }
            },
            BufferContentModel::RenderImage(image) => if !self.images.entries.contains_key(
                image.image,
            ) {
                self
            } else {
                LayerState {
                    buffers: self.buffers.insert(
                        layer,
                        SurfaceBufferAsset {
                            image: image.image,
                            width: update.width,
                            height: update.height,
                            extent: update.extent,
                            opaque: update.opaque,
                            encoding: image.encoding,
                            y_inverted: image.y_inverted,
                        },
                    ),
                    images: if known && self.buffers[layer].image != image.image {
                        self.images.removed(self.buffers[layer].image)
                    } else {
                        self.images
                    },
                }
            },
            BufferContentModel::Retained => if known {
                LayerState {
                    buffers: self.buffers.insert(
                        layer,
                        SurfaceBufferAsset {
                            width: update.width,
                            height: update.height,
                            extent: update.extent,
                            opaque: update.opaque,
                            ..self.buffers[layer]
                        },
                    ),
                    images: self.images,
                }
            } else {
                self
            },
        }
    }

    /// The state after several updates, in order.
    pub open spec fn all_updated(self, updates: Seq<BufferUpdateModel>) -> LayerState
        decreases updates.len(),
    {
        if updates.len() == 0 {
            self
        } else {
            self.all_updated(updates.drop_last()).updated(updates.last())
        }
    }
}

/// Layers of `buffers` that `updates` no longer lists.
fn stale_layers(
    buffers: &HashMap<u64, SurfaceBufferAsset>,
    updates: &Vec<SurfaceBufferUpdate>,
) -> (stale: Vec<u64>)
    ensures
        forall|layer: u64| #[trigger]
            stale@.contains(layer) <==> buffers@.contains_key(layer) && !lists_layer(
                buffer_models(updates@),
                layer,
            ),
{
    let layers = table_keys(buffers);
    let mut stale: Vec<u64> = Vec::new();
    let mut i: usize = 0;
    while i < layers.len()
        invariant
            i <= layers@.len(),
            forall|layer: u64| #[trigger]
                stale@.contains(layer) <==> layers@.take(i as int).contains(layer)
                    && !lists_layer(buffer_models(updates@), layer),
        decreases layers@.len() - i,
    {
        let layer: u64 = layers[i];
        let ghost before: Seq<u64> = stale@;
        assert(layers@.take(i + 1) =~= layers@.take(i as int).push(layer));
        if !layer_is_listed(updates, layer) {
            stale.push(layer);
            assert forall|other: u64| #[trigger]
                stale@.contains(other) <==> before.contains(other) || other == layer by {
                if before.contains(other) {
                    let k = choose|k: int| 0 <= k < before.len() && before[k] == other;
                    assert(stale@[k] == other);
                }
                assert(stale@.last() == layer);
            }
        }
        assert forall|other: u64| #[trigger]
            layers@.take(i + 1).contains(other) <==> layers@.take(i as int).contains(other)
                || other == layer by {
            assert(layers@.take(i + 1).last() == layer);
            if layers@.take(i as int).contains(other) {
                let k = choose|k: int| 0 <= k < i && layers@.take(i as int)[k] == other;
                assert(layers@.take(i + 1)[k] == other);
            }
        }
        i = i + 1;
    }
    assert(layers@.take(i as int) =~= layers@);
    stale
}

/// Drops the layers that `updates` no longer lists, with their images.
fn trim_layers(
    buffers: &mut HashMap<u64, SurfaceBufferAsset>,
    images: &mut Images,
    updates: &Vec<SurfaceBufferUpdate>,
)
    requires
        old(images)@.wf(),
    ensures
        (LayerState { buffers: final(buffers)@, images: final(images)@ }) == (LayerState {
            buffers: old(buffers)@,
            images: old(images)@,
        }).trimmed(buffer_models(updates@)),
        final(images)@.wf(),
{
    let ghost before = LayerState { buffers: buffers@, images: images@ };
    let ghost listed = buffer_models(updates@);
    let stale = stale_layers(buffers, updates);
    let mut i: usize = 0;
    while i < stale.len()
        invariant
            i <= stale@.len(),
            forall|layer: u64| #[trigger]
                stale@.contains(layer) <==> before.buffers.contains_key(layer) && !lists_layer(
                    listed,
                    layer,
                ),
            images@.wf(),
            images@.next == before.images.next,
            buffers@ =~= before.buffers.remove_keys(stale@.take(i as int).to_set()),
            images@.entries =~= before.images.entries.remove_keys(
                backing_images(before.buffers, stale@.take(i as int)),
            ),
        decreases stale@.len() - i,
    {
        let layer: u64 = stale[i];
        assert(stale@.contains(layer));
        let ghost done = stale@.take(i as int);
        let ghost next = stale@.take(i + 1);
        assert(next =~= done.push(layer));
        assert(next.to_set() =~= done.to_set().insert(layer)) by {
            broadcast use vstd::seq_lib::group_seq_properties;
        }
        assert forall|handle: u64| #[trigger]
            backing_images(before.buffers, next).contains(handle) <==> backing_images(
                before.buffers,
                done,
            ).contains(handle) || handle == before.buffers[layer].image by {
            if backing_images(before.buffers, done).contains(handle) {
                let k = choose|k: int|
                    0 <= k < done.len() && before.buffers[#[trigger] done[k]].image == handle;
                assert(next[k] == done[k]);
            }
            assert(next.last() == layer);
        }
        match buffers.remove(&layer) {
            Some(asset) => {
                images.remove(asset.image);
            },
            None => {
                assert(done.to_set().contains(layer));
                let ghost k = choose|k: int| 0 <= k < done.len() && done[k] == layer;
                assert(done[k] == layer);
                assert(backing_images(before.buffers, done).contains(before.buffers[layer].image));
            },
        }
        i = i + 1;
    }
    proof {
        assert(stale@.take(i as int) =~= stale@);
        assert(buffers@ =~= before.trimmed(listed).buffers) by {
            assert forall|layer: u64| #[trigger]
                buffers@.contains_key(layer) <==> before.trimmed(listed).buffers.contains_key(
                    layer,
                ) by {
                assert(stale@.to_set().contains(layer) <==> stale@.contains(layer));
            }
        }
        assert(backing_images(before.buffers, stale@) =~= before.stale_images(listed)) by {
            assert forall|handle: u64| #[trigger]
                backing_images(before.buffers, stale@).contains(handle) <==> before.stale_images(
                    listed,
                ).contains(handle) by {
                if backing_images(before.buffers, stale@).contains(handle) {
                    let k = choose|k: int|
                        0 <= k < stale@.len() && before.buffers[#[trigger] stale@[k]].image
                            == handle;
                    assert(stale@.contains(stale@[k]));
                    assert(before.buffers.contains_key(stale@[k]));
                }
                if before.stale_images(listed).contains(handle) {
                    let layer = choose|layer: u64| #[trigger]
                        before.buffers.contains_key(layer) && !lists_layer(listed, layer)
                            && before.buffers[layer].image == handle;
                    assert(stale@.contains(layer));
                    let k = choose|k: int| 0 <= k < stale@.len() && stale@[k] == layer;
                    assert(before.buffers[stale@[k]].image == handle);
                }
            }
        }
    }
}

/// Images behind `layers`.
spec fn backing_images(buffers: Map<u64, SurfaceBufferAsset>, layers: Seq<u64>) -> Set<u64> {
    Set::new(
        |handle: u64|
            exists|k: int| 0 <= k < layers.len() && buffers[#[trigger] layers[k]].image == handle,
    )
}

/// Applies one update.
fn update_layer(
    buffers: &mut HashMap<u64, SurfaceBufferAsset>,
    images: &mut Images,
    update: &mut SurfaceBufferUpdate,
)
    requires
        old(images)@.wf(),
        old(images)@.next < u64::MAX,
    ensures
        (LayerState { buffers: final(buffers)@, images: final(images)@ }) == (LayerState {
            buffers: old(buffers)@,
            images: old(images)@,
        }).updated(old(update)@),
        final(update)@ == old(update)@.with_content(BufferContentModel::Retained),
        final(images)@.wf(),
        final(images)@.next <= old(images)@.next + 1,
{
    let ghost before = LayerState { buffers: buffers@, images: images@ };
    let ghost given = update@;
    let mut content = SurfaceBufferContent::Retained;
    std::mem::swap(&mut content, &mut update.content);
    let layer: u64 = update.layer.0;
    let known: Option<SurfaceBufferAsset> = match buffers.get(&layer) {
        Some(asset) => Some(*asset),
        None => None,
    };
    match content {
        SurfaceBufferContent::Pixels(pixels) => {
            let mut pixels: Vec<u8> = pixels;
            if !update.opaque {
                unpremultiply_bgra(pixels.as_mut_slice());
            }
            let reusable: bool = match known {
                Some(asset) => match images.get(asset.image) {
                    Some(image) => image.writable,
                    None => false,
                },
                None => false,
            };
            let image: u64 = match known {
                Some(asset) => {
                    if reusable {
                        images.rewrite(asset.image, update.width, update.height, pixels);
                        asset.image
                    } else {
                        let image: u64 = images.insert_new(update.width, update.height, pixels, true);
                        images.remove(asset.image);
                        image
                    }
                },
                None => images.insert_new(update.width, update.height, pixels, true),
            };
            buffers.insert(
                layer,
                SurfaceBufferAsset {
                    image,
                    width: update.width,
                    height: update.height,
                    extent: update.extent,
                    opaque: update.opaque,
                    encoding: SurfaceImageEncoding::LinearStraight,
                    y_inverted: false,
                },
            );
        },
        SurfaceBufferContent::RenderImage(render_image) => {
            if images.contains(render_image.image) {
                match known {
                    Some(asset) => {
                        if asset.image != render_image.image {
                            images.remove(asset.image);
                        }
                    },
                    None => {},
                }
                buffers.insert(
                    layer,
                    SurfaceBufferAsset {
                        image: render_image.image,
                        width: update.width,
                        height: update.height,
                        extent: update.extent,
                        opaque: update.opaque,
                        encoding: render_image.encoding,
                        y_inverted: render_image.y_inverted,
                    },
                );
            }
        },
        SurfaceBufferContent::Retained => {
            match known {
                Some(asset) => {
                    buffers.insert(
                        layer,
                        SurfaceBufferAsset {
                            image: asset.image,
                            width: update.width,
                            height: update.height,
                            extent: update.extent,
                            opaque: update.opaque,
                            encoding: asset.encoding,
                            y_inverted: asset.y_inverted,
                        },
                    );
                },
                None => {},
            }
        },
    }
    assert(LayerState { buffers: buffers@, images: images@ } =~= before.updated(given));
}

/// Applies the updates of one snapshot in order.
fn update_layers(
    buffers: &mut HashMap<u64, SurfaceBufferAsset>,
    images: &mut Images,
    updates: &mut Vec<SurfaceBufferUpdate>,
)
    requires
        old(images)@.wf(),
        old(images)@.next + old(updates)@.len() <= u64::MAX,
    ensures
        (LayerState { buffers: final(buffers)@, images: final(images)@ }) == (LayerState {
            buffers: old(buffers)@,
            images: old(images)@,
        }).all_updated(buffer_models(old(updates)@)),
        final(images)@.wf(),
        final(images)@.next <= old(images)@.next + old(updates)@.len(),
{
    let ghost before = LayerState { buffers: buffers@, images: images@ };
    let ghost given = buffer_models(updates@);
    let mut i: usize = 0;
    while i < updates.len()
        invariant
            i <= updates@.len(),
            updates@.len() == given.len(),
            forall|k: int| i <= k < given.len() ==> (#[trigger] updates@[k])@ == given[k],
            images@.wf(),
            images@.next <= before.images.next + i,
            before.images.next + given.len() <= u64::MAX,
            (LayerState { buffers: buffers@, images: images@ }) == before.all_updated(
                given.take(i as int),
            ),
        decreases updates@.len() - i,
    {
        assert(given.take(i + 1).drop_last() =~= given.take(i as int));
        assert(updates@[i as int]@ == given[i as int]);
        update_layer(buffers, images, &mut updates[i]);
        i = i + 1;
    }
    assert(given.take(i as int) =~= given);
}

/// One layer of a mapped surface and the image that it shows.
#[derive(Clone, Copy, Debug, PartialEq, Eq, Structural)]
pub struct SurfaceLayerContent {
    pub layer: SurfaceLayerId,
    pub image: u64,
    pub view: SurfaceContentView,
    pub position: Vec2,
    pub width: u32,
    pub height: u32,
    pub encoding: SurfaceImageEncoding,
    pub y_inverted: bool,
}

/// Render backing for one mapped client surface tree.
pub struct SurfaceContent {
    pub root: SurfaceLayerContent,
    pub window_geometry: SurfaceWindowGeometry,
    pub overlays: Vec<SurfaceLayerContent>,
    pub inputs: Vec<SurfaceInputPlacement>,
}

/// What a [`SurfaceContent`] holds.
#[verifier::ext_equal]
pub struct ContentModel {
    pub root: SurfaceLayerContent,
    pub window_geometry: SurfaceWindowGeometry,
    pub overlays: Seq<SurfaceLayerContent>,
    pub inputs: Seq<InputPlacementModel>,
}

impl View for SurfaceContent {
    type V = ContentModel;

    open spec fn view(&self) -> ContentModel {
        ContentModel {
            root: self.root,
            window_geometry: self.window_geometry,
            overlays: self.overlays@,
            inputs: input_models(self.inputs@),
        }
    }
}

/// A layer placed at `position`, backed by `asset`.
pub open spec fn layer_content(
    placement: SurfaceLayerPlacement,
    position: Vec2,
    asset: SurfaceBufferAsset,
) -> SurfaceLayerContent {
    SurfaceLayerContent {
        layer: placement.layer,
        image: asset.image,
        view: placement.view,
        position,
        width: asset.width,
        height: asset.height,
        encoding: asset.encoding,
        y_inverted: asset.y_inverted,
    }
}

/// Whether a placement has a layer to show and a view inside its image.
pub open spec fn placement_fits(
    placement: SurfaceLayerPlacement,
    buffers: Map<u64, SurfaceBufferAsset>,
) -> bool {
    buffers.contains_key(placement.layer.0) && placement.view.fits(
        buffers[placement.layer.0].extent,
    )
}

/// The overlays that can be shown, in order.
pub open spec fn overlay_contents(
    overlays: Seq<SurfaceLayerPlacement>,
    buffers: Map<u64, SurfaceBufferAsset>,
) -> Seq<SurfaceLayerContent>
    decreases overlays.len(),
{
    if overlays.len() == 0 {
        Seq::empty()
    } else {
        let shown = overlay_contents(overlays.drop_last(), buffers);
        let last = overlays.last();
        if placement_fits(last, buffers) {
            shown.push(layer_content(last, last.position, buffers[last.layer.0]))
        } else {
            shown
        }
    }
}

/// Whether a snapshot maps its surface with valid root geometry.
pub open spec fn maps_surface(
    snapshot: SnapshotModel,
    buffers: Map<u64, SurfaceBufferAsset>,
) -> bool {
    &&& snapshot.client_mapped
    &&& snapshot.root is Some
    &&& snapshot.window_geometry is Some
    &&& placement_fits(snapshot.root->0, buffers)
    &&& (snapshot.window_geometry->0).view.fits(buffers[(snapshot.root->0).layer.0].extent)
}

/// What a mapping snapshot shows.
pub open spec fn shown_content(
    snapshot: SnapshotModel,
    buffers: Map<u64, SurfaceBufferAsset>,
) -> ContentModel {
    ContentModel {
        root: layer_content(
            snapshot.root->0,
            Vec2::origin(),
            buffers[(snapshot.root->0).layer.0],
        ),
        window_geometry: snapshot.window_geometry->0,
        overlays: overlay_contents(snapshot.overlays, buffers),
        inputs: snapshot.inputs,
    }
}

/// The window state of a mapping snapshot.
pub open spec fn mapped_state(
    snapshot: SnapshotModel,
    buffers: Map<u64, SurfaceBufferAsset>,
) -> MappedSurface {
    MappedSurface {
        logical_size: (snapshot.window_geometry->0).view.logical_size(),
        visual_offset: (snapshot.window_geometry->0).origin.negated(),
        visual_size: (snapshot.root->0).view.logical_size(),
        opaque: buffers[(snapshot.root->0).layer.0].opaque,
    }
}

fn collect_overlays(
    overlays: &Vec<SurfaceLayerPlacement>,
    buffers: &HashMap<u64, SurfaceBufferAsset>,
) -> (shown: Vec<SurfaceLayerContent>)
    ensures
        shown@ == overlay_contents(overlays@, buffers@),
{
    let mut shown: Vec<SurfaceLayerContent> = Vec::new();
    let mut i: usize = 0;
    while i < overlays.len()
        invariant
            i <= overlays@.len(),
            shown@ == overlay_contents(overlays@.take(i as int), buffers@),
        decreases overlays@.len() - i,
    {
        assert(overlays@.take(i + 1).drop_last() =~= overlays@.take(i as int));
        let placement: SurfaceLayerPlacement = overlays[i];
        match buffers.get(&placement.layer.0) {
            Some(asset) => {
                if validate_view(placement.view, asset.extent) {
                    shown.push(
                        SurfaceLayerContent {
                            layer: placement.layer,
                            image: asset.image,
                            view: placement.view,
                            position: placement.position,
                            width: asset.width,
                            height: asset.height,
                            encoding: asset.encoding,
                            y_inverted: asset.y_inverted,
                        },
                    );
                }
            },
            None => {},
        }
        i = i + 1;
    }
    assert(overlays@.take(i as int) =~= overlays@);
    shown
}

/// What `snapshot` shows with the layers in `buffers`, if it maps its surface.
fn compose_content(
    snapshot: SurfaceTreeSnapshot,
    buffers: &HashMap<u64, SurfaceBufferAsset>,
) -> (shown: Option<(SurfaceContent, MappedSurface)>)
    ensures
        match shown {
            Some((content, mapped)) => maps_surface(snapshot@, buffers@) && content@
                == shown_content(snapshot@, buffers@) && mapped == mapped_state(
                snapshot@,
                buffers@,
            ),
            None => !maps_surface(snapshot@, buffers@),
        },
{
    if !snapshot.client_mapped {
        return None;
    }
    let (root, geometry) = match (snapshot.root, snapshot.window_geometry) {
        (Some(root), Some(geometry)) => (root, geometry),
        _ => {
            return None;
        },
    };
    let asset: SurfaceBufferAsset = match buffers.get(&root.layer.0) {
        Some(asset) => *asset,
        None => {
            return None;
        },
    };
    if !validate_view(root.view, asset.extent) || !validate_view(geometry.view, asset.extent) {
        return None;
    }
    let overlays = collect_overlays(&snapshot.overlays, buffers);
    Some(
        (
            SurfaceContent {
                root: SurfaceLayerContent {
                    layer: root.layer,
                    image: asset.image,
                    view: root.view,
                    position: Vec2::zero(),
                    width: asset.width,
                    height: asset.height,
                    encoding: asset.encoding,
                    y_inverted: asset.y_inverted,
                },
                window_geometry: geometry,
                overlays,
                inputs: snapshot.inputs,
            },
            MappedSurface {
                logical_size: Vec2::new(geometry.view.logical_width, geometry.view.logical_height),
                visual_offset: geometry.origin.negate(),
                visual_size: Vec2::new(root.view.logical_width, root.view.logical_height),
                opaque: asset.opaque,
            },
        ),
    )
}

/// Role of a client surface.
#[derive(Clone, Copy, Debug, PartialEq, Eq, Structural)]
pub enum SurfaceRole {
    Window(WindowDecoration),
    Popup(AppPopup),
}

/// Scene object of one surface.
pub struct SurfaceEntity {
    pub role: SurfaceRole,
    pub shown: Option<(SurfaceContent, MappedSurface)>,
    /// Counts accepted snapshots.
    pub revision: u64,
}

/// What a [`SurfaceEntity`] holds.
#[verifier::ext_equal]
pub struct EntityModel {
    pub role: SurfaceRole,
    pub shown: Option<(ContentModel, MappedSurface)>,
    pub revision: u64,
}

impl EntityModel {
    /// An entity that has shown nothing yet.
    pub open spec fn fresh(role: SurfaceRole) -> EntityModel {
        EntityModel { role, shown: None, revision: 0 }
    }
}

impl View for SurfaceEntity {
    type V = EntityModel;

    open spec fn view(&self) -> EntityModel {
        EntityModel {
            role: self.role,
            shown: match self.shown {
                Some((content, mapped)) => Some((content@, mapped)),
                None => None,
            },
            revision: self.revision,
        }
    }
}

/// Layers of one registered surface.
pub struct SurfaceEntry {
    buffers: HashMap<u64, SurfaceBufferAsset>,
    frame_ready: bool,
}

/// What a [`SurfaceEntry`] holds.
#[verifier::ext_equal]
pub struct EntryModel {
    pub buffers: Map<u64, SurfaceBufferAsset>,
    pub frame_ready: bool,
}

impl EntryModel {
    /// An entry without layers.
    pub open spec fn fresh() -> EntryModel {
        EntryModel { buffers: Map::empty(), frame_ready: false }
    }
}

impl View for SurfaceEntry {
    type V = EntryModel;

    closed spec fn view(&self) -> EntryModel {
        EntryModel { buffers: self.buffers@, frame_ready: self.frame_ready }
    }
}

/// Every registered surface, what is shown of it, and what waits for its role.
pub struct SurfaceScene {
    entries: HashMap<u64, SurfaceEntry>,
    pending: HashMap<u64, SurfaceTreeSnapshot>,
    entities: HashMap<u64, SurfaceEntity>,
    images: Option<Images>,
    requests: Vec<WindowInteractionRequest>,
}

/// What a [`SurfaceScene`] holds.
#[verifier::ext_equal]
pub struct SceneModel {
    pub entries: Map<u64, EntryModel>,
    pub pending: Map<u64, SnapshotModel>,
    pub entities: Map<u64, EntityModel>,
    pub images: Option<ImagesModel>,
    pub requests: Seq<WindowInteractionRequest>,
}

impl View for SurfaceScene {
    type V = SceneModel;

    closed spec fn view(&self) -> SceneModel {
        SceneModel {
            entries: self.entries@.map_values(|entry: SurfaceEntry| entry@),
            pending: self.pending@.map_values(|snapshot: SurfaceTreeSnapshot| snapshot@),
            entities: self.entities@.map_values(|entity: SurfaceEntity| entity@),
            images: match self.images {
                Some(images) => Some(images@),
                None => None,
            },
            requests: self.requests@,
        }
    }
}

impl SceneModel {
    /// Entities belong to registered surfaces, and a registered surface is
    /// ready exactly while its entity shows something.
    pub open spec fn wf(self) -> bool {
        &&& self.images matches Some(images) ==> images.wf()
        &&& forall|key: u64| #[trigger]
            self.entities.contains_key(key) ==> self.entries.contains_key(key) && (
            self.entities[key].shown is Some) == self.entries[key].frame_ready
    }

    /// Whether `count` more image handles are left.
    pub open spec fn room(self, count: nat) -> bool {
        self.images matches Some(images) ==> images.next + count <= u64::MAX
    }

    /// Whether the surface is registered and its entity exists.
    pub open spec fn alive(self, surface: SurfaceId) -> bool {
        self.entries.contains_key(surface.0) && self.entities.contains_key(surface.0)
    }

    /// Whether the surface can take a role of the kind that `popup` selects.
    pub open spec fn accepts_role(self, surface: SurfaceId, popup: bool) -> bool {
        self.alive(surface) ==> (self.entities[surface.0].role is Popup) == popup
    }

    /// The scene with `surface` newly registered.
    pub open spec fn registered(self, surface: SurfaceId, role: SurfaceRole) -> SceneModel {
        SceneModel {
            entries: self.entries.insert(surface.0, EntryModel::fresh()),
            entities: self.entities.insert(surface.0, EntityModel::fresh(role)),
            ..self
        }
    }

    /// The scene with the role of an existing entity replaced.
    pub open spec fn with_role(self, surface: SurfaceId, role: SurfaceRole) -> SceneModel {
        SceneModel {
            entities: self.entities.insert(
                surface.0,
                EntityModel { role, ..self.entities[surface.0] },
            ),
            ..self
        }
    }

    /// The scene after `surface` was made sure to be a window.
    pub open spec fn window_ensured(
        self,
        surface: SurfaceId,
        decoration: WindowDecoration,
    ) -> SceneModel {
        if self.alive(surface) {
            self
        } else {
            self.registered(surface, SurfaceRole::Window(decoration))
        }
    }

    /// The scene after `surface` was made sure to be a popup.
    pub open spec fn popup_ensured(self, surface: SurfaceId, popup: AppPopup) -> SceneModel {
        if !self.alive(surface) {
            self.registered(surface, SurfaceRole::Popup(popup))
        } else if self.accepts_role(surface, true) {
            self.with_role(surface, SurfaceRole::Popup(popup))
        } else {
            self
        }
    }

    /// The scene with `snapshot` waiting for the surface's role.
    pub open spec fn snapshot_deferred(
        self,
        surface: SurfaceId,
        snapshot: SnapshotModel,
    ) -> SceneModel {
        SceneModel {
            pending: self.pending.insert(
                surface.0,
                if self.pending.contains_key(surface.0) {
                    merged_snapshot(self.pending[surface.0], snapshot)
                } else {
                    snapshot
                },
            ),
            ..self
        }
    }

    /// What the layers of a registered surface become under `snapshot`.
    pub open spec fn layers_after(
        self,
        surface: SurfaceId,
        snapshot: SnapshotModel,
    ) -> LayerState {
        (LayerState {
            buffers: self.entries[surface.0].buffers,
            images: self.images->0,
        }).trimmed(snapshot.buffers).all_updated(snapshot.buffers)
    }

    /// The scene after `snapshot`.
    pub open spec fn snapshot_applied(
        self,
        surface: SurfaceId,
        snapshot: SnapshotModel,
    ) -> SceneModel {
        if !valid_snapshot(snapshot) {
            self
        } else if !self.entries.contains_key(surface.0) {
            self.snapshot_deferred(surface, snapshot)
        } else if self.images is None {
            self
        } else {
            let layers = self.layers_after(surface, snapshot);
            let mapped = maps_surface(snapshot, layers.buffers);
            if !self.entities.contains_key(surface.0) {
                SceneModel {
                    entries: self.entries.remove(surface.0),
                    images: Some(layers.images),
                    ..self
                }
            } else {
                SceneModel {
                    entries: self.entries.insert(
                        surface.0,
                        EntryModel { buffers: layers.buffers, frame_ready: mapped },
                    ),
                    entities: self.entities.insert(
                        surface.0,
                        EntityModel {
                            role: self.entities[surface.0].role,
                            shown: if mapped {
                                Some(
                                    (
                                        shown_content(snapshot, layers.buffers),
                                        mapped_state(snapshot, layers.buffers),
                                    ),
                                )
                            } else {
                                None
                            },
                            revision: if self.entities[surface.0].revision < u64::MAX {
                                (self.entities[surface.0].revision + 1) as u64
                            } else {
                                u64::MAX
                            },
                        },
                    ),
                    images: Some(layers.images),
                    ..self
                }
            }
        }
    }

    /// The scene after a snapshot that waited for the surface's role, if any.
    pub open spec fn pending_applied(self, surface: SurfaceId) -> SceneModel {
        if self.pending.contains_key(surface.0) {
            (SceneModel { pending: self.pending.remove(surface.0), ..self }).snapshot_applied(
                surface,
                self.pending[surface.0],
            )
        } else {
            self
        }
    }

    /// The scene with the decoration of a window replaced; other surfaces keep theirs.
    pub open spec fn decorated(
        self,
        surface: SurfaceId,
        decoration: WindowDecoration,
    ) -> SceneModel {
        if self.alive(surface) && self.entities[surface.0].role is Window {
            self.with_role(surface, SurfaceRole::Window(decoration))
        } else {
            self
        }
    }

    /// Images behind the layers of `surface`.
    pub open spec fn images_of(self, surface: SurfaceId) -> Set<u64> {
        Set::new(
            |handle: u64|
                exists|layer: u64| #[trigger]
                    self.entries[surface.0].buffers.contains_key(layer)
                        && self.entries[surface.0].buffers[layer].image == handle,
        )
    }

    /// The scene without `surface`.
    pub open spec fn destroyed(self, surface: SurfaceId) -> SceneModel {
        let pending = self.pending.remove(surface.0);
        if !self.entries.contains_key(surface.0) {
            SceneModel { pending, ..self }
        } else {
            SceneModel {
                entries: self.entries.remove(surface.0),
                pending,
                entities: self.entities.remove(surface.0),
                images: match self.images {
                    Some(images) => Some(
                        ImagesModel {
                            entries: images.entries.remove_keys(self.images_of(surface)),
                            next: images.next,
                        },
                    ),
                    None => None,
                },
                requests: self.requests,
            }
        }
    }

    /// The scene after one event.
    pub open spec fn event_applied(self, event: EventModel) -> SceneModel {
        let surface = event.surface;
        match event.kind {
            EventKindModel::Created { decoration } => if self.accepts_role(surface, false) {
                self.window_ensured(surface, decoration).decorated(
                    surface,
                    decoration,
                ).pending_applied(surface)
            } else {
                self
            },
            EventKindModel::TreeSnapshot(snapshot) => if self.entries.contains_key(surface.0) {
                self.snapshot_applied(surface, snapshot)
            } else {
                self.snapshot_deferred(surface, snapshot)
            },
            EventKindModel::DecorationChanged { decoration } => self.decorated(surface, decoration),
            EventKindModel::PopupConfigured(popup) => if self.accepts_role(surface, true) {
                self.popup_ensured(surface, popup).pending_applied(surface)
            } else {
                self
            },
            EventKindModel::WindowInteraction(kind) => SceneModel {
                requests: self.requests.push(WindowInteractionRequest { surface, kind }),
                ..self
            },
            EventKindModel::Destroyed => self.destroyed(surface),
        }
    }

    /// The scene after several events, oldest first.
    pub open spec fn events_applied(self, events: Seq<EventModel>) -> SceneModel
        decreases events.len(),
    {
        if events.len() == 0 {
            self
        } else {
            self.event_applied(events[0]).events_applied(events.drop_first())
        }
    }

    /// Upper bound on the image handles that one event can use up.
    pub open spec fn event_demand(self, event: EventModel) -> nat {
        match event.kind {
            EventKindModel::TreeSnapshot(snapshot) => snapshot.buffers.len(),
            EventKindModel::Created { .. }
            | EventKindModel::PopupConfigured(_) => if self.pending.contains_key(
                event.surface.0,
            ) {
                self.pending[event.surface.0].buffers.len()
            } else {
                0
            },
            _ => 0,
        }
    }

    /// Whether every event finds the image handles that it can use up.
    pub open spec fn room_for(self, events: Seq<EventModel>) -> bool
        decreases events.len(),
    {
        events.len() > 0 ==> self.room(self.event_demand(events[0])) && self.event_applied(
            events[0],
        ).room_for(events.drop_first())
    }
}

impl SurfaceScene {
    /// An empty scene, with or without an image table.
    pub fn new(images_available: bool) -> (scene: SurfaceScene)
        ensures
            scene@.wf(),
            scene@.entries == Map::<u64, EntryModel>::empty(),
            scene@.pending == Map::<u64, SnapshotModel>::empty(),
            scene@.entities == Map::<u64, EntityModel>::empty(),
            scene@.requests == Seq::<WindowInteractionRequest>::empty(),
            scene@.images is Some == images_available,
            scene@.images matches Some(images) ==> images.entries == Map::<
                u64,
                ImageModel,
            >::empty() && images.next == 0,
    {
        let scene = SurfaceScene {
            entries: HashMap::new(),
            pending: HashMap::new(),
            entities: HashMap::new(),
            images: if images_available {
                Some(Images::new())
            } else {
                None
            },
            requests: Vec::new(),
        };
        assert(scene@.entries =~= Map::<u64, EntryModel>::empty());
        assert(scene@.pending =~= Map::<u64, SnapshotModel>::empty());
        assert(scene@.entities =~= Map::<u64, EntityModel>::empty());
        scene
    }

    /// What is shown of `surface`.
    pub fn entity(&self, surface: SurfaceId) -> (entity: Option<&SurfaceEntity>)
        ensures
            match entity {
                Some(entity) => self@.entities.contains_key(surface.0) && entity@
                    == self@.entities[surface.0],
                None => !self@.entities.contains_key(surface.0),
            },
    {
        self.entities.get(&surface.0)
    }

    /// The image table, if there is one.
    pub fn images(&self) -> (images: Option<&Images>)
        ensures
            match images {
                Some(images) => self@.images == Some(images@),
                None => self@.images is None,
            },
    {
        self.images.as_ref()
    }

    /// Enters an image that is filled on the GPU; its handle, where there is an
    /// image table.
    pub fn add_render_image(&mut self, width: u32, height: u32) -> (handle: Option<u64>)
        requires
            old(self)@.wf(),
            old(self)@.room(1),
        ensures
            final(self)@.wf(),
            match old(self)@.images {
                Some(images) => {
                    &&& handle == Some(images.next)
                    &&& final(self)@ == (SceneModel {
                        images: Some(
                            images.added(
                                ImageModel { width, height, pixels: Seq::empty(), writable: false },
                            ),
                        ),
                        ..old(self)@
                    })
                },
                None => handle is None && final(self)@ == old(self)@,
            },
    {
        let mut available: Option<Images> = None;
        std::mem::swap(&mut available, &mut self.images);
        match available {
            Some(held) => {
                let mut images: Images = held;
                let handle: u64 = images.insert_new(width, height, Vec::new(), false);
                self.images = Some(images);
                assert(self@ =~= (SceneModel {
                    images: Some(
                        old(self)@.images->0.added(
                            ImageModel { width, height, pixels: Seq::empty(), writable: false },
                        ),
                    ),
                    ..old(self)@
                }));
                Some(handle)
            },
            None => None,
        }
    }

    /// Drops the scene object of `surface` without the registry knowing.
    pub fn forget_entity(&mut self, surface: SurfaceId)
        requires
            old(self)@.wf(),
        ensures
            final(self)@ == (SceneModel {
                entities: old(self)@.entities.remove(surface.0),
                ..old(self)@
            }),
            final(self)@.wf(),
    {
        self.entities.remove(&surface.0);
        assert(self@ =~= SceneModel {
            entities: old(self)@.entities.remove(surface.0),
            ..old(self)@
        });
    }

    fn is_alive(&self, surface: SurfaceId) -> (alive: bool)
        ensures
            alive == self@.alive(surface),
    {
        self.entries.contains_key(&surface.0) && self.entities.contains_key(&surface.0)
    }

    fn register(&mut self, surface: SurfaceId, role: SurfaceRole)
        requires
            old(self)@.wf(),
        ensures
            final(self)@ == old(self)@.registered(surface, role),
            final(self)@.wf(),
    {
        self.entries.insert(
            surface.0,
            SurfaceEntry { buffers: HashMap::new(), frame_ready: false },
        );
        self.entities.insert(surface.0, SurfaceEntity { role, shown: None, revision: 0 });
        assert(self@ =~= old(self)@.registered(surface, role));
    }

    /// Replaces the role of an entity that exists.
    fn set_role(&mut self, surface: SurfaceId, role: SurfaceRole)
        requires
            old(self)@.wf(),
            old(self)@.entities.contains_key(surface.0),
        ensures
            final(self)@ == old(self)@.with_role(surface, role),
            final(self)@.wf(),
    {
        let ghost before = self@;
        match self.entities.remove(&surface.0) {
            Some(entity) => {
                let mut entity: SurfaceEntity = entity;
                assert(entity@ == before.entities[surface.0]);
                entity.role = role;
                self.entities.insert(surface.0, entity);
            },
            None => {},
        }
        assert(self@ =~= before.with_role(surface, role));
    }

    /// Makes sure that `surface` is a window; `false` where it is a popup.
    pub fn ensure_window_entity(
        &mut self,
        surface: SurfaceId,
        decoration: WindowDecoration,
    ) -> (ensured: bool)
        requires
            old(self)@.wf(),
        ensures
            ensured == old(self)@.accepts_role(surface, false),
            final(self)@ == old(self)@.window_ensured(surface, decoration),
            final(self)@.wf(),
    {
        if self.is_alive(surface) {
            match self.entities.get(&surface.0) {
                Some(entity) => matches!(entity.role, SurfaceRole::Window(_)),
                None => false,
            }
        } else {
            self.register(surface, SurfaceRole::Window(decoration));
            true
        }
    }

    /// Makes sure that `surface` is a popup placed as `popup` says; `false`
    /// where it is a window.
    pub fn ensure_popup_entity(&mut self, surface: SurfaceId, popup: AppPopup) -> (ensured: bool)
        requires
            old(self)@.wf(),
        ensures
            ensured == old(self)@.accepts_role(surface, true),
            final(self)@ == old(self)@.popup_ensured(surface, popup),
            final(self)@.wf(),
    {
        if self.is_alive(surface) {
            let is_popup: bool = match self.entities.get(&surface.0) {
                Some(entity) => matches!(entity.role, SurfaceRole::Popup(_)),
                None => false,
            };
            if is_popup {
                self.set_role(surface, SurfaceRole::Popup(popup));
            }
            is_popup
        } else {
            self.register(surface, SurfaceRole::Popup(popup));
            true
        }
    }

    /// Keeps `snapshot` until the role of `surface` is known.
    pub fn queue_pending_snapshot(&mut self, surface: SurfaceId, snapshot: SurfaceTreeSnapshot)
        ensures
            final(self)@ == old(self)@.snapshot_deferred(surface, snapshot@),
            old(self)@.wf() ==> final(self)@.wf(),
    {
        let ghost before = self@;
        let ghost given = snapshot@;
        let mut snapshot: SurfaceTreeSnapshot = snapshot;
        match self.pending.remove(&surface.0) {
            Some(previous) => {
                let mut previous: SurfaceTreeSnapshot = previous;
                snapshot.carry_pending_content_from(&mut previous);
            },
            None => {},
        }
        self.pending.insert(surface.0, snapshot);
        assert(self@ =~= before.snapshot_deferred(surface, given));
    }

    /// Replaces the decoration of a window; other surfaces keep theirs.
    pub fn set_window_decoration(&mut self, surface: SurfaceId, decoration: WindowDecoration)
        requires
            old(self)@.wf(),
        ensures
            final(self)@ == old(self)@.decorated(surface, decoration),
            final(self)@.wf(),
    {
        if self.is_alive(surface) {
            let is_window: bool = match self.entities.get(&surface.0) {
                Some(entity) => matches!(entity.role, SurfaceRole::Window(_)),
                None => false,
            };
            if is_window {
                self.set_role(surface, SurfaceRole::Window(decoration));
            }
        }
    }

    /// Applies a complete tree snapshot to `surface`.
    pub fn apply_surface_tree_snapshot(
        &mut self,
        surface: SurfaceId,
        snapshot: SurfaceTreeSnapshot,
    )
        requires
            old(self)@.wf(),
            old(self)@.room(snapshot@.buffers.len()),
        ensures
            final(self)@ == old(self)@.snapshot_applied(surface, snapshot@),
            final(self)@.wf(),
    {
        if !validate_snapshot(&snapshot) {
            return;
        }
        let ghost before = self@;
        let ghost given = snapshot@;
        let mut snapshot: SurfaceTreeSnapshot = snapshot;
        let mut entry: SurfaceEntry = match self.entries.remove(&surface.0) {
            Some(entry) => entry,
            None => {
                assert(self@ =~= before);
                self.queue_pending_snapshot(surface, snapshot);
                return;
            },
        };
        assert(entry@ == before.entries[surface.0]);
        let mut images: Images = match self.images.take() {
            Some(images) => images,
            None => {
                self.entries.insert(surface.0, entry);
                assert(self@ =~= before);
                return;
            },
        };
        trim_layers(&mut entry.buffers, &mut images, &snapshot.buffers);
        update_layers(&mut entry.buffers, &mut images, &mut snapshot.buffers);
        let ghost layers = before.layers_after(surface, given);
        assert(entry.buffers@ == layers.buffers && images@ == layers.images);
        self.images = Some(images);
        let shown = compose_content(snapshot, &entry.buffers);
        match self.entities.remove(&surface.0) {
            Some(entity) => {
                let mut entity: SurfaceEntity = entity;
                assert(entity@ == before.entities[surface.0]);
                entry.frame_ready = shown.is_some();
                entity.shown = shown;
                entity.revision = entity.revision.saturating_add(1);
                let ghost shown_entity = entity@;
                self.entities.insert(surface.0, entity);
                self.entries.insert(surface.0, entry);
                assert(shown_entity == before.snapshot_applied(
                    surface,
                    given,
                ).entities[surface.0]);
            },
            None => {},
        }
        assert(self@ =~= before.snapshot_applied(surface, given));
    }

    /// Applies a snapshot that waited for the role of `surface`, if any.
    pub fn apply_pending_snapshot(&mut self, surface: SurfaceId)
        requires
            old(self)@.wf(),
            old(self)@.pending.contains_key(surface.0) ==> old(self)@.room(
                old(self)@.pending[surface.0].buffers.len(),
            ),
        ensures
            final(self)@ == old(self)@.pending_applied(surface),
            final(self)@.wf(),
    {
        let ghost before = self@;
        match self.pending.remove(&surface.0) {
            Some(snapshot) => {
                assert(snapshot@ == before.pending[surface.0]);
                assert(self@ =~= SceneModel {
                    pending: before.pending.remove(surface.0),
                    ..before
                });
                self.apply_surface_tree_snapshot(surface, snapshot);
            },
            None => {
                assert(self@ =~= before);
            },
        }
    }

    /// Forgets `surface`, its images and its scene object.
    pub fn destroy_surface(&mut self, surface: SurfaceId)
        requires
            old(self)@.wf(),
        ensures
            final(self)@ == old(self)@.destroyed(surface),
            final(self)@.wf(),
    {
        let ghost before = self@;
        self.pending.remove(&surface.0);
        match self.entries.remove(&surface.0) {
            Some(entry) => {
                assert(entry@ == before.entries[surface.0]);
                let mut buffers: HashMap<u64, SurfaceBufferAsset> = entry.buffers;
                match self.images.take() {
                    Some(images) => {
                        let mut images: Images = images;
                        let none: Vec<SurfaceBufferUpdate> = Vec::new();
                        let ghost layers = LayerState { buffers: buffers@, images: images@ };
                        trim_layers(&mut buffers, &mut images, &none);
                        assert(layers.stale_images(buffer_models(none@)) =~= before.images_of(
                            surface,
                        ));
                        self.images = Some(images);
                    },
                    None => {},
                }
                self.entities.remove(&surface.0);
            },
            None => {},
        }
        assert(self@ =~= before.destroyed(surface));
    }

    /// Applies one event.
    pub fn apply_event(&mut self, event: HostSurfaceEvent)
        requires
            old(self)@.wf(),
            old(self)@.room(old(self)@.event_demand(event@)),
        ensures
            final(self)@ == old(self)@.event_applied(event@),
            final(self)@.wf(),
    {
        let HostSurfaceEvent { surface, kind } = event;
        match kind {
            HostSurfaceEventKind::Created { decoration } => {
                if self.ensure_window_entity(surface, decoration) {
                    self.set_window_decoration(surface, decoration);
                    self.apply_pending_snapshot(surface);
                }
            },
            HostSurfaceEventKind::TreeSnapshot(snapshot) => {
                if self.entries.contains_key(&surface.0) {
                    self.apply_surface_tree_snapshot(surface, snapshot);
                } else {
                    self.queue_pending_snapshot(surface, snapshot);
                }
            },
            HostSurfaceEventKind::DecorationChanged { decoration } => {
                self.set_window_decoration(surface, decoration);
            },
            HostSurfaceEventKind::PopupConfigured(popup) => {
                if self.ensure_popup_entity(surface, popup) {
                    self.apply_pending_snapshot(surface);
                }
            },
            HostSurfaceEventKind::WindowInteraction(kind) => {
                let ghost before = self@;
                self.requests.push(WindowInteractionRequest { surface, kind });
                assert(self@ =~= before.event_applied(event@));
            },
            HostSurfaceEventKind::Destroyed => {
                self.destroy_surface(surface);
            },
        }
    }

    /// Applies every queued event, oldest first.
    pub fn apply_host_surface_events(&mut self, events: &mut SurfaceEventQueue)
        requires
            old(self)@.wf(),
            old(self)@.room_for(old(events)@),
        ensures
            final(self)@ == old(self)@.events_applied(old(events)@),
            final(self)@.wf(),
            final(events)@.len() == 0,
    {
        let ghost before = self@;
        let ghost all = events@;
        loop
            invariant_except_break
                self@.wf(),
                self@.room_for(events@),
                self@.events_applied(events@) == before.events_applied(all),
            ensures
                self@.wf(),
                events@.len() == 0,
                self@ == before.events_applied(all),
            decreases events@.len(),
        {
            match events.pop() {
                Some(event) => {
                    self.apply_event(event);
                },
                None => {
                    break;
                },
            }
        }
    }

    /// Whether some registered surface has something to show.
    pub fn has_surface_frame(&self) -> (ready: bool)
        ensures
            ready == exists|key: u64| #[trigger]
                self@.entries.contains_key(key) && self@.entries[key].frame_ready,
    {
        let keys = table_keys(&self.entries);
        let mut i: usize = 0;
        while i < keys.len()
            invariant
                i <= keys@.len(),
                forall|key: u64| #[trigger]
                    keys@.contains(key) <==> self.entries@.contains_key(key),
                forall|k: int|
                    0 <= k < i ==> !self@.entries[#[trigger] keys@[k]].frame_ready,
            decreases keys@.len() - i,
        {
            assert(keys@.contains(keys@[i as int]));
            match self.entries.get(&keys[i]) {
                Some(entry) => {
                    assert(entry@ == self@.entries[keys@[i as int]]);
                    if entry.frame_ready {
                        assert(self@.entries.contains_key(keys@[i as int]));
                        return true;
                    }
                },
                None => {},
            }
            i = i + 1;
        }
        assert forall|key: u64| #[trigger] self@.entries.contains_key(key) implies !self@.entries[key].frame_ready by {
            assert(keys@.contains(key));
            let k = choose|k: int| 0 <= k < keys@.len() && keys@[k] == key;
            assert(keys@[k] == key);
        }
        false
    }

    /// Hands out the interaction requests of clients, oldest first, once.
    pub fn take_interaction_requests(&mut self) -> (requests: Vec<WindowInteractionRequest>)
        ensures
            requests@ == old(self)@.requests,
            final(self)@ == (SceneModel {
                requests: Seq::<WindowInteractionRequest>::empty(),
                ..old(self)@
            }),
            old(self)@.wf() ==> final(self)@.wf(),
    {
        let mut requests: Vec<WindowInteractionRequest> = Vec::new();
        std::mem::swap(&mut requests, &mut self.requests);
        requests
    }
}

/// Destroying a surface leaves no trace of it: no entry, no scene object, no
/// waiting snapshot, and none of the images that its layers showed.
pub proof fn destroyed_surfaces_leave_no_trace(scene: SceneModel, surface: SurfaceId, layer: u64)
    requires
        scene.wf(),
    ensures
        !scene.destroyed(surface).entries.contains_key(surface.0),
        !scene.destroyed(surface).entities.contains_key(surface.0),
        !scene.destroyed(surface).pending.contains_key(surface.0),
        scene.entries.contains_key(surface.0) && scene.entries[surface.0].buffers.contains_key(
            layer,
        ) && scene.images is Some ==> !(scene.destroyed(surface).images->0).entries.contains_key(
            scene.entries[surface.0].buffers[layer].image,
        ),
{
    if scene.entries.contains_key(surface.0) && scene.entries[surface.0].buffers.contains_key(layer)
        && scene.images is Some {
        assert(scene.images_of(surface).contains(scene.entries[surface.0].buffers[layer].image));
    }
}

/// An event on one surface changes neither the entry nor the scene object nor
/// the waiting snapshot of another.
pub proof fn events_leave_other_surfaces_alone(
    scene: SceneModel,
    event: EventModel,
    other: SurfaceId,
)
    requires
        scene.wf(),
        other != event.surface,
    ensures
        scene.event_applied(event).entries.contains_key(other.0) == scene.entries.contains_key(
            other.0,
        ),
        scene.event_applied(event).entries[other.0] == scene.entries[other.0],
        scene.event_applied(event).entities.contains_key(other.0) == scene.entities.contains_key(
            other.0,
        ),
        scene.event_applied(event).entities[other.0] == scene.entities[other.0],
        scene.event_applied(event).pending.contains_key(other.0) == scene.pending.contains_key(
            other.0,
        ),
        scene.event_applied(event).pending[other.0] == scene.pending[other.0],
{
}

/// A snapshot never gives a surface a role: one that comes before the role
/// waits, and shows nothing.
pub proof fn snapshots_wait_for_their_role(
    scene: SceneModel,
    surface: SurfaceId,
    snapshot: SnapshotModel,
)
    requires
        !scene.entries.contains_key(surface.0),
    ensures
        ({
            let after = scene.event_applied(
                EventModel { surface, kind: EventKindModel::TreeSnapshot(snapshot) },
            );
            &&& after.entries == scene.entries
            &&& after.entities == scene.entities
            &&& after.images == scene.images
            &&& after.pending.contains_key(surface.0)
        }),
{
}

/// Unmapping keeps the images of the layers that stay listed: a snapshot whose
/// layers bring no content and drop none changes no image.
pub proof fn unmapping_keeps_images(
    scene: SceneModel,
    surface: SurfaceId,
    snapshot: SnapshotModel,
)
    requires
        scene.wf(),
        scene.alive(surface),
        scene.images is Some,
        valid_snapshot(snapshot),
        !snapshot.client_mapped,
        forall|i: int|
            0 <= i < snapshot.buffers.len() ==> (#[trigger] snapshot.buffers[i]).content is Retained,
        forall|layer: u64| #[trigger]
            scene.entries[surface.0].buffers.contains_key(layer) ==> lists_layer(
                snapshot.buffers,
                layer,
            ),
    ensures
        scene.snapshot_applied(surface, snapshot).images == scene.images,
        scene.snapshot_applied(surface, snapshot).entities[surface.0].shown is None,
        !scene.snapshot_applied(surface, snapshot).entries[surface.0].frame_ready,
{
    let layers = LayerState {
        buffers: scene.entries[surface.0].buffers,
        images: scene.images->0,
    };
    assert(layers.stale_images(snapshot.buffers) =~= Set::<u64>::empty());
    assert(layers.trimmed(snapshot.buffers).images =~= layers.images);
    retained_updates_keep_images(layers.trimmed(snapshot.buffers), snapshot.buffers);
}

proof fn retained_updates_keep_images(layers: LayerState, updates: Seq<BufferUpdateModel>)
    requires
        forall|i: int| 0 <= i < updates.len() ==> (#[trigger] updates[i]).content is Retained,
    ensures
        layers.all_updated(updates).images == layers.images,
    decreases updates.len(),
{
    if updates.len() > 0 {
        retained_updates_keep_images(layers, updates.drop_last());
    }
}

/// Rewriting the pixels of a layer keeps its image handle.
pub proof fn pixel_updates_reuse_the_image(layers: LayerState, update: BufferUpdateModel)
    requires
        layers.buffers.contains_key(update.layer.0),
        layers.images.entries.contains_key(layers.buffers[update.layer.0].image),
        layers.images.entries[layers.buffers[update.layer.0].image].writable,
        update.content is Pixels,
    ensures
        layers.updated(update).buffers[update.layer.0].image
            == layers.buffers[update.layer.0].image,
        layers.updated(update).images.next == layers.images.next,
        layers.updated(update).images.entries[layers.buffers[update.layer.0].image].pixels == if update.opaque {
            update.content->Pixels_0
        } else {
            straight_bgra(update.content->Pixels_0)
        },
{
}

/// In a valid snapshot every layer is updated once, to a size, with pixels that
/// fill it where it brings pixels. It has a root just if it has a window
/// geometry, which is somewhere, and takes input only on layers that it updates,
/// in regions with an extent.
pub proof fn valid_snapshots_are_sound(snapshot: SnapshotModel, n: int)
    requires
        valid_snapshot(snapshot),
    ensures
        forall|i: int|
            0 <= i < snapshot.buffers.len() ==> (#[trigger] snapshot.buffers[i]).width > 0
                && snapshot.buffers[i].height > 0,
        forall|i: int|
            0 <= i < snapshot.buffers.len() && (#[trigger] snapshot.buffers[i]).content is Pixels
                ==> snapshot.buffers[i].content->Pixels_0.len() == snapshot.buffers[i].width
                * snapshot.buffers[i].height * 4,
        forall|i: int, j: int|
            0 <= i < j < snapshot.buffers.len() ==> (#[trigger] snapshot.buffers[i]).layer != (
            #[trigger] snapshot.buffers[j]).layer,
        snapshot.root is Some <==> snapshot.window_geometry is Some,
        snapshot.window_geometry is Some ==> (snapshot.window_geometry->0).origin.x.finite() && (
        snapshot.window_geometry->0).origin.y.finite(),
        0 <= n < snapshot.inputs.len() ==> exists|j: int|
            0 <= j < snapshot.buffers.len() && (#[trigger] snapshot.buffers[j]).layer
                == snapshot.inputs[n].layer,
        forall|i: int|
            0 <= i < snapshot.inputs.len() ==> (#[trigger] snapshot.inputs[i]).position.x.finite()
                && snapshot.inputs[i].position.y.finite(),
        forall|i: int, k: int|
            0 <= i < snapshot.inputs.len() && 0 <= k < snapshot.inputs[i].regions.len() ==> (
            #[trigger] snapshot.inputs[i].regions[k]).valid(),
{
    if 0 <= n < snapshot.inputs.len() {
        assert(valid_input(snapshot.buffers, snapshot.inputs[n]));
        let j = choose|j: int|
            0 <= j < snapshot.buffers.len() && #[trigger] snapshot.buffers[j].layer.0
                == snapshot.inputs[n].layer.0;
        assert(snapshot.buffers[j].layer == snapshot.inputs[n].layer);
    }
    assert forall|i: int| 0 <= i < snapshot.inputs.len() implies (
    #[trigger] snapshot.inputs[i]).position.x.finite() && snapshot.inputs[i].position.y.finite() by {
        assert(valid_input(snapshot.buffers, snapshot.inputs[i]));
    }
    assert forall|i: int, k: int|
        0 <= i < snapshot.inputs.len() && 0 <= k < snapshot.inputs[i].regions.len() implies (
    #[trigger] snapshot.inputs[i].regions[k]).valid() by {
        assert(valid_input(snapshot.buffers, snapshot.inputs[i]));
    }
}

/// A snapshot of copied pixels that fill their layers, of distinct layers, with
/// root and geometry together and input only on those layers is accepted.
pub proof fn sound_snapshots_are_accepted(snapshot: SnapshotModel)
    requires
        forall|i: int|
            0 <= i < snapshot.buffers.len() ==> (#[trigger] snapshot.buffers[i]).width > 0
                && snapshot.buffers[i].height > 0 && (
            snapshot.buffers[i].content matches BufferContentModel::Pixels(pixels) ==> pixels.len()
                == snapshot.buffers[i].width * snapshot.buffers[i].height * 4 && pixels.len()
                <= u32::MAX),
        forall|i: int, j: int|
            0 <= i < j < snapshot.buffers.len() ==> (#[trigger] snapshot.buffers[i]).layer != (
            #[trigger] snapshot.buffers[j]).layer,
        snapshot.root is Some <==> snapshot.window_geometry is Some,
        snapshot.window_geometry is Some ==> (snapshot.window_geometry->0).origin.x.finite() && (
        snapshot.window_geometry->0).origin.y.finite(),
        forall|i: int|
            0 <= i < snapshot.inputs.len() ==> (exists|j: int|
                0 <= j < snapshot.buffers.len() && (#[trigger] snapshot.buffers[j]).layer
                    == snapshot.inputs[i].layer) && (
            #[trigger] snapshot.inputs[i]).position.x.finite()
                && snapshot.inputs[i].position.y.finite(),
        forall|i: int, k: int|
            0 <= i < snapshot.inputs.len() && 0 <= k < snapshot.inputs[i].regions.len() ==> (
            #[trigger] snapshot.inputs[i].regions[k]).valid(),
    ensures
        valid_snapshot(snapshot),
{
    assert forall|i: int| 0 <= i < snapshot.inputs.len() implies valid_input(
        snapshot.buffers,
        #[trigger] snapshot.inputs[i],
    ) by {
        let j = choose|j: int|
            0 <= j < snapshot.buffers.len() && (#[trigger] snapshot.buffers[j]).layer
                == snapshot.inputs[i].layer;
        assert(snapshot.buffers[j].layer.0 == snapshot.inputs[i].layer.0);
        assert forall|k: int| 0 <= k < snapshot.inputs[i].regions.len() implies (
        #[trigger] snapshot.inputs[i].regions[k]).valid() by {}
    }
}

/// A snapshot that is refused, or for which there is no image table, changes
/// nothing.
pub proof fn refused_snapshots_change_nothing(
    scene: SceneModel,
    surface: SurfaceId,
    snapshot: SnapshotModel,
)
    requires
        !valid_snapshot(snapshot) || (scene.images is None && scene.entries.contains_key(
            surface.0,
        )),
    ensures
        scene.snapshot_applied(surface, snapshot) == scene,
{
}

/// New pixels give their layer an image of just that size that holds them, with
/// color and alpha parted unless the layer is opaque, the right way up.
pub proof fn new_pixels_are_what_is_shown(layers: LayerState, update: BufferUpdateModel)
    requires
        layers.images.wf(),
        layers.images.next < u64::MAX,
        layers.buffers.contains_key(update.layer.0) ==> layers.buffers[update.layer.0].image
            < layers.images.next,
        update.content is Pixels,
    ensures
        ({
            let after = layers.updated(update);
            let asset = after.buffers[update.layer.0];
            &&& after.buffers.contains_key(update.layer.0)
            &&& asset.width == update.width && asset.height == update.height
            &&& asset.extent == update.extent && asset.opaque == update.opaque
            &&& asset.encoding is LinearStraight && !asset.y_inverted
            &&& after.images.entries.contains_key(asset.image)
            &&& after.images.entries[asset.image].width == update.width
            &&& after.images.entries[asset.image].height == update.height
            &&& update.opaque ==> after.images.entries[asset.image].pixels
                == update.content->Pixels_0
            &&& !update.opaque ==> after.images.entries[asset.image].pixels == straight_bgra(
                update.content->Pixels_0,
            )
            &&& after.images.entries[asset.image].writable
        }),
{
}

/// An imported image is shown as it is: with its own handle, its encoding and
/// its direction, at the size of the update. The image that the layer showed
/// before is dropped. One that is not in the table changes nothing.
pub proof fn imported_images_are_shown_as_they_are(
    layers: LayerState,
    update: BufferUpdateModel,
    image: SurfaceRenderImage,
)
    requires
        update.content == BufferContentModel::RenderImage(image),
    ensures
        !layers.images.entries.contains_key(image.image) ==> layers.updated(update) == layers,
        layers.images.entries.contains_key(image.image) ==> {
            let after = layers.updated(update);
            let asset = after.buffers[update.layer.0];
            &&& after.buffers.contains_key(update.layer.0)
            &&& asset.image == image.image
            &&& asset.encoding == image.encoding && asset.y_inverted == image.y_inverted
            &&& asset.width == update.width && asset.height == update.height
            &&& asset.extent == update.extent && asset.opaque == update.opaque
            &&& after.images.entries.contains_key(image.image)
            &&& layers.buffers.contains_key(update.layer.0)
                && layers.buffers[update.layer.0].image != image.image
                ==> !after.images.entries.contains_key(layers.buffers[update.layer.0].image)
            &&& after.images.next == layers.images.next
        },
{
}

/// An update without content keeps the image that the layer shows, with its
/// encoding and its direction, and takes the new size. A layer that is not known
/// does not appear.
pub proof fn retained_layers_keep_their_image(layers: LayerState, update: BufferUpdateModel)
    requires
        update.content is Retained,
    ensures
        ({
            let after = layers.updated(update);
            let before = layers.buffers[update.layer.0];
            let asset = after.buffers[update.layer.0];
            &&& after.images == layers.images
            &&& after.buffers.contains_key(update.layer.0) <==> layers.buffers.contains_key(
                update.layer.0,
            )
            &&& layers.buffers.contains_key(update.layer.0) ==> {
                &&& asset.image == before.image && asset.encoding == before.encoding
                &&& asset.y_inverted == before.y_inverted
                &&& asset.width == update.width && asset.height == update.height
                &&& asset.extent == update.extent && asset.opaque == update.opaque
            }
        }),
{
}

/// An update changes no layer but its own.
pub proof fn updates_leave_other_layers_alone(
    layers: LayerState,
    update: BufferUpdateModel,
    other: u64,
)
    requires
        other != update.layer.0,
    ensures
        layers.updated(update).buffers.contains_key(other) <==> layers.buffers.contains_key(other),
        layers.buffers.contains_key(other) ==> layers.updated(update).buffers[other]
            == layers.buffers[other],
{
}

/// A layer that a snapshot no longer lists is dropped with its image; the others
/// stay, and so do the images that no dropped layer showed.
pub proof fn unlisted_layers_are_dropped(
    layers: LayerState,
    updates: Seq<BufferUpdateModel>,
    layer: u64,
    handle: u64,
)
    ensures
        layers.trimmed(updates).buffers.contains_key(layer) <==> layers.buffers.contains_key(layer)
            && exists|i: int|
            0 <= i < updates.len() && (#[trigger] updates[i]).layer.0 == layer,
        layers.trimmed(updates).buffers.contains_key(layer) ==> layers.trimmed(
            updates,
        ).buffers[layer] == layers.buffers[layer],
        layers.buffers.contains_key(layer) && !(exists|i: int|
            0 <= i < updates.len() && (#[trigger] updates[i]).layer.0 == layer) ==> !layers.trimmed(
            updates,
        ).images.entries.contains_key(layers.buffers[layer].image),
        layers.images.entries.contains_key(handle) && (forall|other: u64| #[trigger]
            layers.buffers.contains_key(other) && layers.buffers[other].image == handle
                ==> exists|i: int| 0 <= i < updates.len() && (#[trigger] updates[i]).layer.0 == other)
            ==> layers.trimmed(updates).images.entries.contains_key(handle),
        layers.trimmed(updates).images.next == layers.images.next,
{
    assert forall|other: u64| #[trigger] lists_layer(updates, other) <==> exists|i: int|
        0 <= i < updates.len() && (#[trigger] updates[i]).layer.0 == other by {
        if lists_layer(updates, other) {
            let i = choose|i: int|
                0 <= i < updates.len() && #[trigger] updates[i].layer.0 == other;
            assert(updates[i].layer.0 == other);
        }
        if exists|i: int| 0 <= i < updates.len() && (#[trigger] updates[i]).layer.0 == other {
            let i = choose|i: int|
                0 <= i < updates.len() && (#[trigger] updates[i]).layer.0 == other;
            assert(updates[i].layer.0 == other);
        }
    }
    if layers.buffers.contains_key(layer) && !lists_layer(updates, layer) {
        assert(layers.stale_images(updates).contains(layers.buffers[layer].image));
    }
}

/// A snapshot maps its surface just if its client has mapped it and the root has
/// a layer that both its own view and that of the window geometry lie inside of.
pub proof fn surfaces_are_mapped_with_sound_geometry(
    snapshot: SnapshotModel,
    buffers: Map<u64, SurfaceBufferAsset>,
)
    ensures
        maps_surface(snapshot, buffers) <==> {
            &&& snapshot.client_mapped
            &&& snapshot.root matches Some(root)
            &&& snapshot.window_geometry matches Some(geometry)
            &&& buffers.contains_key(root.layer.0)
            &&& root.view.fits(buffers[root.layer.0].extent)
            &&& geometry.view.fits(buffers[root.layer.0].extent)
        },
{
}

/// What a mapped surface shows is its root layer, from zero, with the root's view
/// of the image behind it, and the geometry and input regions of the snapshot.
/// The window is as large as the geometry's view; its full surface is as large as
/// the root's view, and is shifted back by the geometry's origin.
pub proof fn mapped_surfaces_show_their_root(
    snapshot: SnapshotModel,
    buffers: Map<u64, SurfaceBufferAsset>,
)
    requires
        maps_surface(snapshot, buffers),
    ensures
        ({
            let shown = shown_content(snapshot, buffers);
            let mapped = mapped_state(snapshot, buffers);
            let root = snapshot.root->0;
            let geometry = snapshot.window_geometry->0;
            let asset = buffers[root.layer.0];
            &&& shown.root.layer == root.layer && shown.root.view == root.view
            &&& shown.root.position.x.bits == 0 && shown.root.position.y.bits == 0
            &&& shown.root.image == asset.image
            &&& shown.root.width == asset.width && shown.root.height == asset.height
            &&& shown.root.encoding == asset.encoding
            &&& shown.root.y_inverted == asset.y_inverted
            &&& shown.window_geometry == geometry && shown.inputs == snapshot.inputs
            &&& mapped.logical_size.x == geometry.view.logical_width
            &&& mapped.logical_size.y == geometry.view.logical_height
            &&& mapped.visual_size.x == root.view.logical_width
            &&& mapped.visual_size.y == root.view.logical_height
            &&& mapped.visual_offset.x == geometry.origin.x.negated()
            &&& mapped.visual_offset.y == geometry.origin.y.negated()
            &&& mapped.opaque == asset.opaque
        }),
{
}

/// Every overlay that is shown is one of the snapshot's: with its own layer, view
/// and position, and the image behind its layer.
pub proof fn shown_overlays_are_placed_as_committed(
    overlays: Seq<SurfaceLayerPlacement>,
    buffers: Map<u64, SurfaceBufferAsset>,
    i: int,
)
    requires
        0 <= i < overlay_contents(overlays, buffers).len(),
    ensures
        exists|k: int|
            #![trigger overlays[k]]
            0 <= k < overlays.len() && buffers.contains_key(overlays[k].layer.0)
                && overlays[k].view.fits(buffers[overlays[k].layer.0].extent) && overlay_contents(
                overlays,
                buffers,
            )[i].layer == overlays[k].layer && overlay_contents(overlays, buffers)[i].view
                == overlays[k].view && overlay_contents(overlays, buffers)[i].position
                == overlays[k].position && overlay_contents(overlays, buffers)[i].image
                == buffers[overlays[k].layer.0].image && overlay_contents(overlays, buffers)[i].width
                == buffers[overlays[k].layer.0].width && overlay_contents(
                overlays,
                buffers,
            )[i].height == buffers[overlays[k].layer.0].height && overlay_contents(
                overlays,
                buffers,
            )[i].encoding == buffers[overlays[k].layer.0].encoding && overlay_contents(
                overlays,
                buffers,
            )[i].y_inverted == buffers[overlays[k].layer.0].y_inverted,
    decreases overlays.len(),
{
    let lower = overlays.drop_last();
    let shown = overlay_contents(overlays, buffers);
    let below = overlay_contents(lower, buffers);
    if i < below.len() {
        shown_overlays_are_placed_as_committed(lower, buffers, i);
        let k = choose|k: int|
            #![trigger lower[k]]
            0 <= k < lower.len() && buffers.contains_key(lower[k].layer.0) && lower[k].view.fits(
                buffers[lower[k].layer.0].extent,
            ) && below[i].layer == lower[k].layer && below[i].view == lower[k].view
                && below[i].position == lower[k].position && below[i].image
                == buffers[lower[k].layer.0].image && below[i].width
                == buffers[lower[k].layer.0].width && below[i].height
                == buffers[lower[k].layer.0].height && below[i].encoding
                == buffers[lower[k].layer.0].encoding && below[i].y_inverted
                == buffers[lower[k].layer.0].y_inverted;
        assert(shown[i] == below[i]);
        assert(overlays[k] == lower[k]);
    } else {
        assert(overlays[overlays.len() - 1] == overlays.last());
    }
}

/// Overlays that fit are all shown, in the snapshot's order, and ones that do not
/// fit take no place: adding an overlay on top adds it on top of what is shown,
/// or changes nothing.
pub proof fn fitting_overlays_are_shown_in_order(
    overlays: Seq<SurfaceLayerPlacement>,
    top: SurfaceLayerPlacement,
    buffers: Map<u64, SurfaceBufferAsset>,
)
    ensures
        ({
            let below = overlay_contents(overlays, buffers);
            let shown = overlay_contents(overlays.push(top), buffers);
            if buffers.contains_key(top.layer.0) && top.view.fits(buffers[top.layer.0].extent) {
                &&& shown.len() == below.len() + 1
                &&& shown.drop_last() == below
                &&& shown.last().layer == top.layer && shown.last().position == top.position
                &&& shown.last().view == top.view
            } else {
                shown == below
            }
        }),
{
    assert(overlays.push(top).drop_last() =~= overlays);
    let below = overlay_contents(overlays, buffers);
    let shown = overlay_contents(overlays.push(top), buffers);
    if placement_fits(top, buffers) {
        assert(shown.drop_last() =~= below);
    }
}

/// An accepted snapshot leaves its surface mapped just if it maps it: the entity
/// then shows what the snapshot shows, keeps its role, and counts one more
/// snapshot. Its layers are those that the snapshot lists.
pub proof fn accepted_snapshots_are_shown(
    scene: SceneModel,
    surface: SurfaceId,
    snapshot: SnapshotModel,
)
    requires
        valid_snapshot(snapshot),
        scene.alive(surface),
        scene.images is Some,
    ensures
        ({
            let after = scene.snapshot_applied(surface, snapshot);
            let layers = scene.layers_after(surface, snapshot);
            let before = scene.entities[surface.0];
            let entity = after.entities[surface.0];
            let entry = after.entries[surface.0];
            &&& after.alive(surface)
            &&& entity.role == before.role
            &&& before.revision < u64::MAX ==> entity.revision == before.revision + 1
            &&& before.revision == u64::MAX ==> entity.revision == u64::MAX
            &&& entity.shown is Some <==> maps_surface(snapshot, layers.buffers)
            &&& entry.frame_ready <==> maps_surface(snapshot, layers.buffers)
            &&& entry.buffers == layers.buffers
            &&& entity.shown matches Some((content, mapped)) ==> {
                &&& content == shown_content(snapshot, layers.buffers)
                &&& mapped == mapped_state(snapshot, layers.buffers)
                &&& content.root.view == (snapshot.root->0).view
                &&& content.window_geometry == snapshot.window_geometry->0
            }
            &&& after.images == Some(layers.images)
            &&& after.pending == scene.pending && after.requests == scene.requests
        }),
{
}

/// Whether a surface gets its role before its first snapshot or after it makes
/// no difference to the scene.
pub proof fn first_snapshots_may_come_before_the_role(
    scene: SceneModel,
    surface: SurfaceId,
    decoration: WindowDecoration,
    popup: AppPopup,
    snapshot: SnapshotModel,
)
    requires
        !scene.entries.contains_key(surface.0),
        !scene.pending.contains_key(surface.0),
    ensures
        ({
            let shows = EventModel { surface, kind: EventKindModel::TreeSnapshot(snapshot) };
            let created = EventModel { surface, kind: EventKindModel::Created { decoration } };
            let placed = EventModel { surface, kind: EventKindModel::PopupConfigured(popup) };
            &&& scene.event_applied(shows).event_applied(created) == scene.event_applied(
                created,
            ).event_applied(shows)
            &&& scene.event_applied(shows).event_applied(placed) == scene.event_applied(
                placed,
            ).event_applied(shows)
        }),
{
    let shows = EventModel { surface, kind: EventKindModel::TreeSnapshot(snapshot) };
    let deferred = scene.event_applied(shows);
    let window = SurfaceRole::Window(decoration);
    let pop = SurfaceRole::Popup(popup);
    let as_window = deferred.registered(surface, window);
    assert(as_window.with_role(surface, window) =~= as_window);
    assert(scene.registered(surface, window).with_role(surface, window) =~= scene.registered(
        surface,
        window,
    ));
    assert((SceneModel { pending: as_window.pending.remove(surface.0), ..as_window })
        =~= scene.registered(surface, window));
    let as_popup = deferred.registered(surface, pop);
    assert((SceneModel { pending: as_popup.pending.remove(surface.0), ..as_popup })
        =~= scene.registered(surface, pop));
}

/// A new surface gets the role that its event gives it, with nothing shown and
/// no snapshot counted unless one was waiting. A living window keeps its role
/// under a popup's event, and a popup under a window's.
pub proof fn surfaces_keep_the_kind_of_their_role(
    scene: SceneModel,
    surface: SurfaceId,
    decoration: WindowDecoration,
    popup: AppPopup,
)
    ensures
        ({
            let created = scene.event_applied(
                EventModel { surface, kind: EventKindModel::Created { decoration } },
            );
            let placed = scene.event_applied(
                EventModel { surface, kind: EventKindModel::PopupConfigured(popup) },
            );
            &&& !scene.alive(surface) && !scene.pending.contains_key(surface.0) ==> {
                &&& created.alive(surface) && placed.alive(surface)
                &&& created.entities[surface.0].role == SurfaceRole::Window(decoration)
                &&& placed.entities[surface.0].role == SurfaceRole::Popup(popup)
                &&& created.entities[surface.0].shown is None
                &&& created.entities[surface.0].revision == 0
                &&& placed.entities[surface.0].shown is None
                &&& !created.entries[surface.0].frame_ready
                &&& created.entries[surface.0].buffers.is_empty()
            }
            &&& scene.alive(surface) && scene.entities[surface.0].role is Window ==> placed == scene
            &&& scene.alive(surface) && scene.entities[surface.0].role is Popup ==> created == scene
            &&& scene.alive(surface) && scene.entities[surface.0].role is Popup
                && !scene.pending.contains_key(surface.0) ==> placed.entities[surface.0].role
                == SurfaceRole::Popup(popup) && placed.entities[surface.0].shown
                == scene.entities[surface.0].shown && placed.entities[surface.0].revision
                == scene.entities[surface.0].revision
        }),
{
    assert(EntryModel::fresh().buffers =~= Map::empty());
}

/// A change of decoration changes the decoration of a living window and nothing
/// else; popups and surfaces that are not there are left alone.
pub proof fn decorations_change_only_windows(
    scene: SceneModel,
    surface: SurfaceId,
    decoration: WindowDecoration,
)
    ensures
        ({
            let after = scene.event_applied(
                EventModel { surface, kind: EventKindModel::DecorationChanged { decoration } },
            );
            if scene.alive(surface) && scene.entities[surface.0].role is Window {
                &&& after.entities[surface.0].role == SurfaceRole::Window(decoration)
                &&& after.entities[surface.0].shown == scene.entities[surface.0].shown
                &&& after.entities[surface.0].revision == scene.entities[surface.0].revision
                &&& after.entries == scene.entries && after.images == scene.images
                &&& after.pending == scene.pending && after.requests == scene.requests
            } else {
                after == scene
            }
        }),
{
}

/// A request of a client waits behind those before it, under its own surface and
/// as what it asks for; nothing else of the scene changes.
pub proof fn client_requests_wait_in_order(
    scene: SceneModel,
    surface: SurfaceId,
    kind: WindowInteractionRequestKind,
)
    ensures
        ({
            let after = scene.event_applied(
                EventModel { surface, kind: EventKindModel::WindowInteraction(kind) },
            );
            &&& after.requests.len() == scene.requests.len() + 1
            &&& after.requests.drop_last() == scene.requests
            &&& after.requests.last().surface == surface && after.requests.last().kind == kind
            &&& after.entries == scene.entries && after.entities == scene.entities
            &&& after.pending == scene.pending && after.images == scene.images
        }),
{
    let after = scene.event_applied(
        EventModel { surface, kind: EventKindModel::WindowInteraction(kind) },
    );
    assert(after.requests.drop_last() =~= scene.requests);
}

/// Events in a row do what they do one after the other.
pub proof fn events_are_applied_in_order(
    scene: SceneModel,
    events: Seq<EventModel>,
    last: EventModel,
)
    ensures
        scene.events_applied(events.push(last)) == scene.events_applied(events).event_applied(last),
        scene.events_applied(Seq::empty()) == scene,
    decreases events.len(),
{
    reveal_with_fuel(SceneModel::events_applied, 2);
    let all = events.push(last);
    if events.len() == 0 {
        assert(all.drop_first() =~= Seq::empty());
    } else {
        assert(all.drop_first() =~= events.drop_first().push(last));
        events_are_applied_in_order(scene.event_applied(events[0]), events.drop_first(), last);
    }
}

/// A destroyed surface takes none of the images with it that its layers did not
/// show, and no request that was made before.
pub proof fn destruction_spares_other_images(scene: SceneModel, surface: SurfaceId, handle: u64)
    requires
        scene.images is Some,
        (scene.images->0).entries.contains_key(handle),
        forall|layer: u64| #[trigger]
            scene.entries[surface.0].buffers.contains_key(layer)
                ==> scene.entries[surface.0].buffers[layer].image != handle,
    ensures
        scene.destroyed(surface).images is Some,
        (scene.destroyed(surface).images->0).entries.contains_key(handle),
        (scene.destroyed(surface).images->0).entries[handle] == (scene.images->0).entries[handle],
        (scene.destroyed(surface).images->0).next == (scene.images->0).next,
        scene.destroyed(surface).requests == scene.requests,
        !scene.destroyed(surface).alive(surface),
{
}

} // verus!
