//! Client-buffer lifetimes: staging, promotion and retirement of GPU images.
//!
//! A client buffer is staged when it is committed, displayed once a
//! composition uses it, and retired after its successor has been rendered.
//! Whatever path it takes, it is released exactly once.

use vstd::multiset::Multiset;
use vstd::prelude::*;

use crate::ledger::{AcquiredSources, RetirementUnderflow, SourceRetirementPlan};
#[allow(unused_imports)]
use crate::ledger::{batch_counts, batch_fits, ledger_wf, retired, uses_of};
use crate::surface::{SurfaceId, SurfaceImageEncoding, SurfaceLayerId, SurfaceRenderImage};

verus! {

/// Server-owned identity returned only after GPU consumption has completed.
#[derive(Clone, Copy, Debug, PartialEq, Eq, Hash, Structural)]
pub struct DmabufReleaseId(pub u64);

impl DmabufReleaseId {
    pub fn new(raw: u64) -> (id: DmabufReleaseId)
        ensures
            id.0 == raw,
    {
        DmabufReleaseId(raw)
    }
}

/// A client buffer under its placeholder image.
#[derive(Clone, Copy, Debug, PartialEq, Eq, Structural)]
pub struct BufferImage {
    /// Handle of the placeholder image.
    pub handle: u64,
    /// GPU image that the buffer was imported as; buffers can share one.
    pub source: u64,
    pub release: DmabufReleaseId,
}

/// The buffers of one surface layer.
#[derive(Clone, Copy, Debug, PartialEq, Eq, Structural)]
pub struct LayerSlot {
    pub surface: SurfaceId,
    pub layer: SurfaceLayerId,
    pub staged: Option<BufferImage>,
    pub displayed: Option<BufferImage>,
}

/// How the pixels of a GPU image lie in memory.
#[derive(Clone, Copy, Debug, PartialEq, Eq, Structural)]
pub enum ImageLayout {
    General,
    ShaderReadOnly,
}

/// How the GPU touches an image.
#[derive(Clone, Copy, Debug, PartialEq, Eq, Structural)]
pub enum ImageAccess {
    MemoryWrite,
    ShaderRead,
    Untouched,
}

/// A stage of the GPU's pipeline.
#[derive(Clone, Copy, Debug, PartialEq, Eq, Structural)]
pub enum PipelineStage {
    AllCommands,
    FragmentShader,
    BottomOfPipe,
}

/// Who owns an image on the GPU.
#[derive(Clone, Copy, Debug, PartialEq, Eq, Structural)]
pub enum ImageOwner {
    /// The client that drew it.
    Foreign,
    /// The compositor's queue family.
    Family(u32),
}

/// One side of a transfer between a client and the compositor.
#[derive(Clone, Copy, Debug, PartialEq, Eq, Structural)]
pub struct TransferSide {
    pub layout: ImageLayout,
    pub owner: ImageOwner,
    pub access: ImageAccess,
    pub stage: PipelineStage,
}

/// A transfer of an image, as a pipeline barrier records it.
#[derive(Clone, Copy, Debug, PartialEq, Eq, Structural)]
pub struct OwnershipTransfer {
    pub before: TransferSide,
    pub after: TransferSide,
}

/// The transfer that takes an image over from its client.
pub open spec fn acquisition(queue_family: u32) -> OwnershipTransfer {
    OwnershipTransfer {
        before: TransferSide {
            layout: ImageLayout::General,
            owner: ImageOwner::Foreign,
            access: ImageAccess::MemoryWrite,
            stage: PipelineStage::AllCommands,
        },
        after: TransferSide {
            layout: ImageLayout::ShaderReadOnly,
            owner: ImageOwner::Family(queue_family),
            access: ImageAccess::ShaderRead,
            stage: PipelineStage::FragmentShader,
        },
    }
}

/// The transfer that hands an image back to its client.
pub open spec fn hand_back(queue_family: u32) -> OwnershipTransfer {
    OwnershipTransfer {
        before: acquisition(queue_family).after,
        after: TransferSide {
            layout: ImageLayout::General,
            owner: ImageOwner::Foreign,
            access: ImageAccess::Untouched,
            stage: PipelineStage::BottomOfPipe,
        },
    }
}

/// The transfer to record for an image that is taken over or handed back.
pub fn ownership_transfer(queue_family: u32, acquire: bool) -> (transfer: OwnershipTransfer)
    ensures
        transfer == (if acquire {
            acquisition(queue_family)
        } else {
            hand_back(queue_family)
        }),
{
    let sampled = TransferSide {
        layout: ImageLayout::ShaderReadOnly,
        owner: ImageOwner::Family(queue_family),
        access: ImageAccess::ShaderRead,
        stage: PipelineStage::FragmentShader,
    };
    if acquire {
        OwnershipTransfer {
            before: TransferSide {
                layout: ImageLayout::General,
                owner: ImageOwner::Foreign,
                access: ImageAccess::MemoryWrite,
                stage: PipelineStage::AllCommands,
            },
            after: sampled,
        }
    } else {
        OwnershipTransfer {
            before: sampled,
            after: TransferSide {
                layout: ImageLayout::General,
                owner: ImageOwner::Foreign,
                access: ImageAccess::Untouched,
                stage: PipelineStage::BottomOfPipe,
            },
        }
    }
}

/// Handing an image back leaves it with the owner and in the layout that it
/// was taken over from.
pub proof fn handing_back_undoes_the_acquisition(queue_family: u32)
    ensures
        hand_back(queue_family).before == acquisition(queue_family).after,
        hand_back(queue_family).after.owner == acquisition(queue_family).before.owner,
        hand_back(queue_family).after.layout == acquisition(queue_family).before.layout,
{
}

/// A staged buffer that the next composition shows.
#[derive(Clone, Copy, Debug, PartialEq, Eq, Structural)]
pub struct Promotion {
    pub surface: SurfaceId,
    pub layer: SurfaceLayerId,
    pub image: BufferImage,
}

/// Every client buffer that has not been released.
pub struct DmabufLayers {
    slots: Vec<LayerSlot>,
    superseded: Vec<BufferImage>,
    retiring: Vec<BufferImage>,
    acquired: AcquiredSources,
}

/// What a [`DmabufLayers`] holds.
#[verifier::ext_equal]
pub struct LayersModel {
    /// Layers, in the order in which they first got a buffer.
    pub slots: Seq<LayerSlot>,
    /// Buffers replaced before they were shown.
    pub superseded: Seq<BufferImage>,
    /// Buffers replaced after they were shown.
    pub retiring: Seq<BufferImage>,
    /// Uses of each GPU image.
    pub acquired: Map<u64, usize>,
}

impl View for DmabufLayers {
    type V = LayersModel;

    closed spec fn view(&self) -> LayersModel {
        LayersModel {
            slots: self.slots@,
            superseded: self.superseded@,
            retiring: self.retiring@,
            acquired: self.acquired@,
        }
    }
}

/// The image as a multiset.
pub open spec fn optional_image(image: Option<BufferImage>) -> Multiset<BufferImage> {
    match image {
        Some(image) => Multiset::singleton(image),
        None => Multiset::empty(),
    }
}

/// The GPU image as a multiset.
pub open spec fn optional_source(image: Option<BufferImage>) -> Multiset<u64> {
    match image {
        Some(image) => Multiset::singleton(image.source),
        None => Multiset::empty(),
    }
}

/// The image appended, if there is one.
pub open spec fn appended(images: Seq<BufferImage>, image: Option<BufferImage>) -> Seq<
    BufferImage,
> {
    match image {
        Some(image) => images.push(image),
        None => images,
    }
}

/// GPU images of the displayed buffers.
pub open spec fn displayed_sources(slots: Seq<LayerSlot>) -> Multiset<u64>
    decreases slots.len(),
{
    if slots.len() == 0 {
        Multiset::empty()
    } else {
        displayed_sources(slots.drop_last()).add(optional_source(slots.last().displayed))
    }
}

/// Staged and displayed buffers.
pub open spec fn slot_images(slots: Seq<LayerSlot>) -> Multiset<BufferImage>
    decreases slots.len(),
{
    if slots.len() == 0 {
        Multiset::empty()
    } else {
        slot_images(slots.drop_last()).add(optional_image(slots.last().staged)).add(
            optional_image(slots.last().displayed),
        )
    }
}

/// GPU images of several buffers.
pub open spec fn image_sources(images: Seq<BufferImage>) -> Seq<u64> {
    Seq::new(images.len(), |i: int| images[i].source)
}

/// Buffers of several promotions.
pub open spec fn promotion_images(batch: Seq<Promotion>) -> Seq<BufferImage> {
    Seq::new(batch.len(), |i: int| batch[i].image)
}

/// Position of a layer's slot; the number of slots where it has none.
pub open spec fn slot_index(
    slots: Seq<LayerSlot>,
    surface: SurfaceId,
    layer: SurfaceLayerId,
) -> int
    decreases slots.len(),
{
    if slots.len() == 0 {
        0
    } else {
        let index = slot_index(slots.drop_last(), surface, layer);
        if index < slots.len() - 1 {
            index
        } else if slots.last().surface == surface && slots.last().layer == layer {
            slots.len() - 1
        } else {
            slots.len() as int
        }
    }
}

/// The slot of a layer; an empty one where it has none.
pub open spec fn slot_of(
    slots: Seq<LayerSlot>,
    surface: SurfaceId,
    layer: SurfaceLayerId,
) -> LayerSlot {
    let index = slot_index(slots, surface, layer);
    if index < slots.len() {
        slots[index]
    } else {
        LayerSlot { surface, layer, staged: None, displayed: None }
    }
}

/// The slots with the slot of a layer replaced or added.
pub open spec fn with_slot(slots: Seq<LayerSlot>, slot: LayerSlot) -> Seq<LayerSlot> {
    let index = slot_index(slots, slot.surface, slot.layer);
    if index < slots.len() {
        slots.update(index, slot)
    } else {
        slots.push(slot)
    }
}

/// The slots without their staged buffers.
pub open spec fn unstaged(slots: Seq<LayerSlot>) -> Seq<LayerSlot> {
    Seq::new(slots.len(), |i: int| LayerSlot { staged: None, ..slots[i] })
}

/// Staged buffers whose placeholder is gone.
pub open spec fn discarded_images(slots: Seq<LayerSlot>, live: Seq<u64>) -> Seq<BufferImage>
    decreases slots.len(),
{
    if slots.len() == 0 {
        Seq::empty()
    } else {
        let discarded = discarded_images(slots.drop_last(), live);
        match slots.last().staged {
            Some(image) => if live.contains(image.handle) {
                discarded
            } else {
                discarded.push(image)
            },
            None => discarded,
        }
    }
}

/// Staged buffers whose placeholder is still referenced.
pub open spec fn promotable(slots: Seq<LayerSlot>, live: Seq<u64>) -> Seq<Promotion>
    decreases slots.len(),
{
    if slots.len() == 0 {
        Seq::empty()
    } else {
        let batch = promotable(slots.drop_last(), live);
        match slots.last().staged {
            Some(image) => if live.contains(image.handle) {
                batch.push(
                    Promotion { surface: slots.last().surface, layer: slots.last().layer, image },
                )
            } else {
                batch
            },
            None => batch,
        }
    }
}

/// GPU images that a batch has to acquire: each once, and none in use already.
pub open spec fn acquisitions(batch: Seq<Promotion>, acquired: Map<u64, usize>) -> Seq<u64>
    decreases batch.len(),
{
    if batch.len() == 0 {
        Seq::empty()
    } else {
        let planned = acquisitions(batch.drop_last(), acquired);
        let source = batch.last().image.source;
        if acquired.contains_key(source) || planned.contains(source) {
            planned
        } else {
            planned.push(source)
        }
    }
}

/// Whether a layer of `surface` is dropped by keeping only `retained`.
pub open spec fn drops_slot(slot: LayerSlot, surface: SurfaceId, retained: Seq<u64>) -> bool {
    slot.surface == surface && !retained.contains(slot.layer.0)
}

/// The slots that stay.
pub open spec fn kept_slots(
    slots: Seq<LayerSlot>,
    surface: SurfaceId,
    retained: Seq<u64>,
) -> Seq<LayerSlot>
    decreases slots.len(),
{
    if slots.len() == 0 {
        Seq::empty()
    } else {
        let kept = kept_slots(slots.drop_last(), surface, retained);
        if drops_slot(slots.last(), surface, retained) {
            kept
        } else {
            kept.push(slots.last())
        }
    }
}

impl LayersModel {
    /// GPU images in use, by displayed and by retiring buffers.
    pub open spec fn in_use(self) -> Multiset<u64> {
        displayed_sources(self.slots).add(image_sources(self.retiring).to_multiset())
    }

    /// Every buffer that has not been released.
    pub open spec fn held(self) -> Multiset<BufferImage> {
        slot_images(self.slots).add(self.superseded.to_multiset()).add(
            self.retiring.to_multiset(),
        )
    }

    /// The ledger counts exactly the GPU images in use.
    pub open spec fn wf(self) -> bool {
        &&& ledger_wf(self.acquired)
        &&& forall|source: u64|
            #![trigger uses_of(self.acquired, source)]
            #![trigger self.in_use().count(source)]
            uses_of(self.acquired, source) == self.in_use().count(source)
    }

    /// Whether `count` more uses can be counted.
    pub open spec fn room(self, count: nat) -> bool {
        self.slots.len() + self.retiring.len() + count <= usize::MAX
    }

    /// The state with `image` staged for a layer.
    pub open spec fn staged(
        self,
        surface: SurfaceId,
        layer: SurfaceLayerId,
        image: BufferImage,
    ) -> LayersModel {
        let slot = slot_of(self.slots, surface, layer);
        LayersModel {
            slots: with_slot(self.slots, LayerSlot { staged: Some(image), ..slot }),
            superseded: appended(self.superseded, slot.staged),
            ..self
        }
    }

    /// The state with one promotion displayed.
    pub open spec fn promoted(self, promotion: Promotion) -> LayersModel {
        let slot = slot_of(self.slots, promotion.surface, promotion.layer);
        LayersModel {
            slots: with_slot(
                self.slots,
                LayerSlot { displayed: Some(promotion.image), ..slot },
            ),
            retiring: appended(self.retiring, slot.displayed),
            acquired: self.acquired.insert(
                promotion.image.source,
                (uses_of(self.acquired, promotion.image.source) + 1) as usize,
            ),
            ..self
        }
    }

    /// The state with a batch displayed, in order.
    pub open spec fn all_promoted(self, batch: Seq<Promotion>) -> LayersModel
        decreases batch.len(),
    {
        if batch.len() == 0 {
            self
        } else {
            self.all_promoted(batch.drop_last()).promoted(batch.last())
        }
    }
}

proof fn updating_a_slot(slots: Seq<LayerSlot>, i: int, slot: LayerSlot)
    requires
        0 <= i < slots.len(),
    ensures
        displayed_sources(slots.update(i, slot)).add(optional_source(slots[i].displayed))
            =~= displayed_sources(slots).add(optional_source(slot.displayed)),
        slot_images(slots.update(i, slot)).add(optional_image(slots[i].staged)).add(
            optional_image(slots[i].displayed),
        ) =~= slot_images(slots).add(optional_image(slot.staged)).add(
            optional_image(slot.displayed),
        ),
    decreases slots.len(),
{
    let updated = slots.update(i, slot);
    if i == slots.len() - 1 {
        assert(updated.drop_last() =~= slots.drop_last());
    } else {
        let lower = slots.drop_last();
        updating_a_slot(lower, i, slot);
        assert(updated.drop_last() =~= lower.update(i, slot));
        assert(lower[i] == slots[i]);
        assert forall|source: u64|
            displayed_sources(updated).add(optional_source(slots[i].displayed)).count(source)
                == displayed_sources(slots).add(optional_source(slot.displayed)).count(source) by {
            assert(displayed_sources(lower.update(i, slot)).add(
                optional_source(slots[i].displayed),
            ).count(source) == displayed_sources(lower).add(optional_source(slot.displayed)).count(
                source,
            ));
        }
        assert forall|image: BufferImage|
            slot_images(updated).add(optional_image(slots[i].staged)).add(
                optional_image(slots[i].displayed),
            ).count(image) == slot_images(slots).add(optional_image(slot.staged)).add(
                optional_image(slot.displayed),
            ).count(image) by {
            assert(slot_images(lower.update(i, slot)).add(optional_image(slots[i].staged)).add(
                optional_image(slots[i].displayed),
            ).count(image) == slot_images(lower).add(optional_image(slot.staged)).add(
                optional_image(slot.displayed),
            ).count(image));
        }
    }
}

proof fn adding_a_slot(slots: Seq<LayerSlot>, slot: LayerSlot)
    ensures
        displayed_sources(slots.push(slot)) == displayed_sources(slots).add(
            optional_source(slot.displayed),
        ),
        slot_images(slots.push(slot)) == slot_images(slots).add(optional_image(slot.staged)).add(
            optional_image(slot.displayed),
        ),
{
    assert(slots.push(slot).drop_last() =~= slots);
}

proof fn removing_a_slot(slots: Seq<LayerSlot>, i: int)
    requires
        0 <= i < slots.len(),
    ensures
        displayed_sources(slots.remove(i)).add(optional_source(slots[i].displayed))
            =~= displayed_sources(slots),
        slot_images(slots.remove(i)).add(optional_image(slots[i].staged)).add(
            optional_image(slots[i].displayed),
        ) =~= slot_images(slots),
    decreases slots.len(),
{
    if i == slots.len() - 1 {
        assert(slots.remove(i) =~= slots.drop_last());
    } else {
        removing_a_slot(slots.drop_last(), i);
        assert(slots.remove(i).drop_last() =~= slots.drop_last().remove(i));
        assert(slots.remove(i).last() == slots.last());
        assert(slots.drop_last()[i] == slots[i]);
    }
}

/// Placing a slot changes the buffers by the difference to the slot before.
proof fn placing_a_slot(slots: Seq<LayerSlot>, slot: LayerSlot)
    ensures
        ({
            let before = slot_of(slots, slot.surface, slot.layer);
            &&& displayed_sources(with_slot(slots, slot)).add(optional_source(before.displayed))
                =~= displayed_sources(slots).add(optional_source(slot.displayed))
            &&& slot_images(with_slot(slots, slot)).add(optional_image(before.staged)).add(
                optional_image(before.displayed),
            ) =~= slot_images(slots).add(optional_image(slot.staged)).add(
                optional_image(slot.displayed),
            )
        }),
{
    let index = slot_index(slots, slot.surface, slot.layer);
    slot_index_is_a_match(slots, slot.surface, slot.layer);
    if index < slots.len() {
        updating_a_slot(slots, index, slot);
    } else {
        adding_a_slot(slots, slot);
    }
}

proof fn slot_index_is_a_match(slots: Seq<LayerSlot>, surface: SurfaceId, layer: SurfaceLayerId)
    ensures
        0 <= slot_index(slots, surface, layer) <= slots.len(),
        slot_index(slots, surface, layer) < slots.len() ==> slots[slot_index(
            slots,
            surface,
            layer,
        )].surface == surface && slots[slot_index(slots, surface, layer)].layer == layer,
    decreases slots.len(),
{
    if slots.len() > 0 {
        slot_index_is_a_match(slots.drop_last(), surface, layer);
    }
}

proof fn appending_an_image(images: Seq<BufferImage>, image: Option<BufferImage>)
    ensures
        appended(images, image).to_multiset() =~= images.to_multiset().add(optional_image(image)),
        image_sources(appended(images, image)).to_multiset() =~= image_sources(
            images,
        ).to_multiset().add(optional_source(image)),
{
    images.to_multiset_ensures();
    image_sources(images).to_multiset_ensures();
    if image is Some {
        assert(image_sources(appended(images, image)) =~= image_sources(images).push(
            (image->0).source,
        ));
    }
}

/// Staging a buffer adds it to those that wait for their release, and leaves
/// the GPU images in use alone.
pub proof fn staging_adds_one_buffer(
    state: LayersModel,
    surface: SurfaceId,
    layer: SurfaceLayerId,
    image: BufferImage,
)
    ensures
        state.staged(surface, layer, image).held() == state.held().insert(image),
        state.staged(surface, layer, image).in_use() == state.in_use(),
        state.wf() ==> state.staged(surface, layer, image).wf(),
{
    let before = slot_of(state.slots, surface, layer);
    slot_index_is_a_match(state.slots, surface, layer);
    placing_a_slot(state.slots, LayerSlot { staged: Some(image), ..before });
    appending_an_image(state.superseded, before.staged);
    let after = state.staged(surface, layer, image);
    assert forall|b: BufferImage| after.held().count(b) == state.held().insert(image).count(b) by {
        let x = slot_images(after.slots).add(optional_image(before.staged)).add(
            optional_image(before.displayed),
        );
        let y = slot_images(state.slots).add(optional_image(Some(image))).add(
            optional_image(before.displayed),
        );
        assert(x.count(b) == y.count(b));
        assert(after.superseded.to_multiset().count(b) == state.superseded.to_multiset().add(
            optional_image(before.staged),
        ).count(b));
    }
    assert(after.held() =~= state.held().insert(image));
    assert forall|source: u64| after.in_use().count(source) == state.in_use().count(source) by {
        assert(displayed_sources(after.slots).add(optional_source(before.displayed)).count(source)
            == displayed_sources(state.slots).add(optional_source(before.displayed)).count(source));
    }
    assert(after.in_use() =~= state.in_use());
}

/// Displaying a buffer counts one use of its GPU image; a buffer that it
/// replaces stays in use until it is retired.
pub proof fn promoting_counts_one_use(state: LayersModel, promotion: Promotion)
    requires
        uses_of(state.acquired, promotion.image.source) < usize::MAX,
    ensures
        state.promoted(promotion).held() == state.held().insert(promotion.image),
        state.promoted(promotion).in_use() == state.in_use().insert(promotion.image.source),
        state.wf() ==> state.promoted(promotion).wf(),
{
    let before = slot_of(state.slots, promotion.surface, promotion.layer);
    slot_index_is_a_match(state.slots, promotion.surface, promotion.layer);
    let image = promotion.image;
    placing_a_slot(state.slots, LayerSlot { displayed: Some(image), ..before });
    appending_an_image(state.retiring, before.displayed);
    let after = state.promoted(promotion);
    assert forall|b: BufferImage| after.held().count(b) == state.held().insert(image).count(b) by {
        let x = slot_images(after.slots).add(optional_image(before.staged)).add(
            optional_image(before.displayed),
        );
        let y = slot_images(state.slots).add(optional_image(before.staged)).add(
            optional_image(Some(image)),
        );
        assert(x.count(b) == y.count(b));
        assert(after.retiring.to_multiset().count(b) == state.retiring.to_multiset().add(
            optional_image(before.displayed),
        ).count(b));
    }
    assert(after.held() =~= state.held().insert(image));
    assert forall|source: u64|
        after.in_use().count(source) == state.in_use().insert(image.source).count(source) by {
        assert(displayed_sources(after.slots).add(optional_source(before.displayed)).count(source)
            == displayed_sources(state.slots).add(optional_source(Some(image))).count(source));
        assert(image_sources(after.retiring).to_multiset().count(source) == image_sources(
            state.retiring,
        ).to_multiset().add(optional_source(before.displayed)).count(source));
    }
    assert(after.in_use() =~= state.in_use().insert(image.source));
    if state.wf() {
        assert forall|source: u64|
            #![trigger uses_of(after.acquired, source)]
            #![trigger after.in_use().count(source)]
            uses_of(after.acquired, source) == after.in_use().count(source) by {
            assert(uses_of(state.acquired, source) == state.in_use().count(source));
        }
    }
}

/// Staged buffers of the layers that are dropped.
pub open spec fn dropped_staged(
    slots: Seq<LayerSlot>,
    surface: SurfaceId,
    retained: Seq<u64>,
) -> Seq<BufferImage>
    decreases slots.len(),
{
    if slots.len() == 0 {
        Seq::empty()
    } else {
        let dropped = dropped_staged(slots.drop_last(), surface, retained);
        if drops_slot(slots.last(), surface, retained) {
            appended(dropped, slots.last().staged)
        } else {
            dropped
        }
    }
}

/// Displayed buffers of the layers that are dropped.
pub open spec fn dropped_displayed(
    slots: Seq<LayerSlot>,
    surface: SurfaceId,
    retained: Seq<u64>,
) -> Seq<BufferImage>
    decreases slots.len(),
{
    if slots.len() == 0 {
        Seq::empty()
    } else {
        let dropped = dropped_displayed(slots.drop_last(), surface, retained);
        if drops_slot(slots.last(), surface, retained) {
            appended(dropped, slots.last().displayed)
        } else {
            dropped
        }
    }
}

/// Every staged buffer.
pub open spec fn all_staged(slots: Seq<LayerSlot>) -> Seq<BufferImage>
    decreases slots.len(),
{
    if slots.len() == 0 {
        Seq::empty()
    } else {
        appended(all_staged(slots.drop_last()), slots.last().staged)
    }
}

/// Every displayed buffer.
pub open spec fn all_displayed(slots: Seq<LayerSlot>) -> Seq<BufferImage>
    decreases slots.len(),
{
    if slots.len() == 0 {
        Seq::empty()
    } else {
        appended(all_displayed(slots.drop_last()), slots.last().displayed)
    }
}

impl LayersModel {
    /// The state that keeps only `retained` of the layers of `surface`.
    pub open spec fn trimmed(self, surface: SurfaceId, retained: Seq<u64>) -> LayersModel {
        LayersModel {
            slots: kept_slots(self.slots, surface, retained),
            superseded: self.superseded + dropped_staged(self.slots, surface, retained),
            retiring: self.retiring + dropped_displayed(self.slots, surface, retained),
            ..self
        }
    }

    /// The state without one layer.
    pub open spec fn without_layer(
        self,
        surface: SurfaceId,
        layer: SurfaceLayerId,
    ) -> LayersModel {
        let index = slot_index(self.slots, surface, layer);
        if index < self.slots.len() {
            LayersModel {
                slots: self.slots.remove(index),
                superseded: appended(self.superseded, self.slots[index].staged),
                retiring: appended(self.retiring, self.slots[index].displayed),
                ..self
            }
        } else {
            self
        }
    }
}

/// What becomes of the staged buffers of one composition.
pub struct StagedBatch {
    /// Buffers to release: nothing refers to their placeholder.
    pub discarded: Vec<BufferImage>,
    /// Buffers to display.
    pub promotions: Vec<Promotion>,
    /// GPU images to acquire first.
    pub acquire: Vec<u64>,
}

/// What is left to release at shutdown.
pub struct ShutdownPlan {
    /// Buffers to release at once.
    pub staged: Vec<BufferImage>,
    /// Buffers to release once the GPU is done with them.
    pub displayed: Vec<BufferImage>,
    /// GPU images to hand back, if the ledger agrees and any is in use.
    pub sources: Option<Vec<u64>>,
}

fn contains_handle(live: &Vec<u64>, handle: u64) -> (contains: bool)
    ensures
        contains == live@.contains(handle),
{
    let mut i: usize = 0;
    while i < live.len()
        invariant
            i <= live@.len(),
            forall|k: int| 0 <= k < i ==> #[trigger] live@[k] != handle,
        decreases live@.len() - i,
    {
        if live[i] == handle {
            assert(live@[i as int] == handle);
            return true;
        }
        i = i + 1;
    }
    false
}

fn collect_sources(images: &Vec<BufferImage>) -> (sources: Vec<u64>)
    ensures
        sources@ == image_sources(images@),
{
    let mut sources: Vec<u64> = Vec::new();
    let mut i: usize = 0;
    while i < images.len()
        invariant
            i <= images@.len(),
            sources@ =~= image_sources(images@).take(i as int),
        decreases images@.len() - i,
    {
        sources.push(images[i].source);
        i = i + 1;
    }
    assert(sources@ =~= image_sources(images@));
    sources
}

/// The image under which a staged buffer is sampled.
pub fn staged_render_image(handle: u64, opaque: bool, y_inverted: bool) -> (image:
    SurfaceRenderImage)
    ensures
        image == (SurfaceRenderImage {
            image: handle,
            encoding: if opaque {
                SurfaceImageEncoding::EncodedOpaque
            } else {
                SurfaceImageEncoding::EncodedPremultiplied
            },
            y_inverted,
        }),
{
    SurfaceRenderImage {
        image: handle,
        encoding: if opaque {
            SurfaceImageEncoding::EncodedOpaque
        } else {
            SurfaceImageEncoding::EncodedPremultiplied
        },
        y_inverted,
    }
}

impl Default for DmabufLayers {
    fn default() -> (layers: DmabufLayers)
        ensures
            layers@.slots == Seq::<LayerSlot>::empty(),
            layers@.superseded == Seq::<BufferImage>::empty(),
            layers@.retiring == Seq::<BufferImage>::empty(),
            layers@.acquired == Map::<u64, usize>::empty(),
            layers@.wf(),
    {
        let layers = DmabufLayers {
            slots: Vec::new(),
            superseded: Vec::new(),
            retiring: Vec::new(),
            acquired: AcquiredSources::default(),
        };
        proof {
            assert(image_sources(layers@.retiring) =~= Seq::<u64>::empty());
            Seq::<u64>::empty().to_multiset_ensures();
        }
        layers
    }
}

impl DmabufLayers {
    fn find_slot(&self, surface: SurfaceId, layer: SurfaceLayerId) -> (index: usize)
        ensures
            index == slot_index(self@.slots, surface, layer),
            index <= self@.slots.len(),
    {
        let mut index: usize = 0;
        let mut found: bool = false;
        let mut i: usize = 0;
        while i < self.slots.len()
            invariant
                i <= self.slots@.len(),
                found ==> index < i,
                slot_index(self.slots@.take(i as int), surface, layer) == if found {
                    index
                } else {
                    i
                },
            decreases self.slots@.len() - i,
        {
            assert(self.slots@.take(i + 1).drop_last() =~= self.slots@.take(i as int));
            if !found && self.slots[i].surface == surface && self.slots[i].layer == layer {
                found = true;
                index = i;
            }
            i = i + 1;
        }
        assert(self.slots@.take(i as int) =~= self.slots@);
        if found {
            index
        } else {
            self.slots.len()
        }
    }

    /// Replaces or adds the slot of a layer, given the position of the layer.
    fn place_slot(&mut self, index: usize, slot: LayerSlot)
        requires
            index == slot_index(old(self)@.slots, slot.surface, slot.layer),
        ensures
            final(self)@ == (LayersModel {
                slots: with_slot(old(self)@.slots, slot),
                ..old(self)@
            }),
    {
        if index < self.slots.len() {
            self.slots.set(index, slot);
        } else {
            self.slots.push(slot);
        }
    }

    /// Stages a buffer for a layer. A buffer that was staged before stays until
    /// the next composition, because its placeholder may still be referenced.
    pub fn stage(&mut self, surface: SurfaceId, layer: SurfaceLayerId, image: BufferImage)
        ensures
            final(self)@ == old(self)@.staged(surface, layer, image),
            final(self)@.held() == old(self)@.held().insert(image),
            old(self)@.wf() ==> final(self)@.wf(),
    {
        let index: usize = self.find_slot(surface, layer);
        proof {
            slot_index_is_a_match(self@.slots, surface, layer);
            staging_adds_one_buffer(self@, surface, layer, image);
        }
        let before: LayerSlot = if index < self.slots.len() {
            self.slots[index]
        } else {
            LayerSlot { surface, layer, staged: None, displayed: None }
        };
        self.place_slot(
            index,
            LayerSlot {
                surface,
                layer,
                staged: Some(image),
                displayed: before.displayed,
            },
        );
        match before.staged {
            Some(staged) => {
                self.superseded.push(staged);
            },
            None => {},
        }
        assert(self@ =~= old(self)@.staged(surface, layer, image));
    }

    /// Hands out the buffers that were replaced before they were shown.
    pub fn take_superseded(&mut self) -> (released: Vec<BufferImage>)
        ensures
            released@ == old(self)@.superseded,
            final(self)@ == (LayersModel { superseded: Seq::empty(), ..old(self)@ }),
            final(self)@.held().add(released@.to_multiset()) == old(self)@.held(),
            old(self)@.wf() ==> final(self)@.wf(),
    {
        let mut released: Vec<BufferImage> = Vec::new();
        std::mem::swap(&mut released, &mut self.superseded);
        proof {
            Seq::<BufferImage>::empty().to_multiset_ensures();
            assert(self@.superseded =~= Seq::<BufferImage>::empty());
            assert(self@.held().add(released@.to_multiset()) =~= old(self)@.held());
            assert(self@.in_use() == old(self)@.in_use());
        }
        released
    }

    /// Takes every staged buffer. Those whose placeholder is among `live` are
    /// to be displayed, the others to be released.
    pub fn take_staged(&mut self, live: &Vec<u64>) -> (batch: StagedBatch)
        ensures
            batch.discarded@ == discarded_images(old(self)@.slots, live@),
            batch.promotions@ == promotable(old(self)@.slots, live@),
            batch.acquire@ == acquisitions(batch.promotions@, old(self)@.acquired),
            final(self)@ == (LayersModel { slots: unstaged(old(self)@.slots), ..old(self)@ }),
            final(self)@.held().add(batch.discarded@.to_multiset()).add(
                promotion_images(batch.promotions@).to_multiset(),
            ) == old(self)@.held(),
            old(self)@.wf() ==> final(self)@.wf(),
    {
        let ghost before = self@;
        let mut discarded: Vec<BufferImage> = Vec::new();
        let mut promotions: Vec<Promotion> = Vec::new();
        let mut i: usize = 0;
        while i < self.slots.len()
            invariant
                i <= self.slots@.len(),
                self.slots@.len() == before.slots.len(),
                self@.superseded == before.superseded,
                self@.retiring == before.retiring,
                self@.acquired == before.acquired,
                forall|k: int|
                    0 <= k < i ==> #[trigger] self.slots@[k] == unstaged(before.slots)[k],
                forall|k: int|
                    i <= k < before.slots.len() ==> #[trigger] self.slots@[k] == before.slots[k],
                discarded@ == discarded_images(before.slots.take(i as int), live@),
                promotions@ == promotable(before.slots.take(i as int), live@),
            decreases self.slots@.len() - i,
        {
            assert(before.slots.take(i + 1).drop_last() =~= before.slots.take(i as int));
            let slot: LayerSlot = self.slots[i];
            match slot.staged {
                Some(image) => {
                    if contains_handle(live, image.handle) {
                        promotions.push(
                            Promotion { surface: slot.surface, layer: slot.layer, image },
                        );
                    } else {
                        discarded.push(image);
                    }
                },
                None => {},
            }
            self.slots.set(
                i,
                LayerSlot {
                    surface: slot.surface,
                    layer: slot.layer,
                    staged: None,
                    displayed: slot.displayed,
                },
            );
            i = i + 1;
        }
        assert(before.slots.take(i as int) =~= before.slots);
        assert(self@ =~= LayersModel { slots: unstaged(before.slots), ..before });
        let mut acquire: Vec<u64> = Vec::new();
        let mut n: usize = 0;
        while n < promotions.len()
            invariant
                n <= promotions@.len(),
                self@.acquired == before.acquired,
                acquire@ == acquisitions(promotions@.take(n as int), before.acquired),
            decreases promotions@.len() - n,
        {
            assert(promotions@.take(n + 1).drop_last() =~= promotions@.take(n as int));
            let source: u64 = promotions[n].image.source;
            if !self.acquired.contains(source) && !contains_handle(&acquire, source) {
                acquire.push(source);
            }
            n = n + 1;
        }
        assert(promotions@.take(n as int) =~= promotions@);
        proof {
            unstaging_splits_the_buffers(before.slots, live@);
            let out = discarded@.to_multiset();
            let kept = promotion_images(promotions@).to_multiset();
            assert forall|image: BufferImage|
                self@.held().add(out).add(kept).count(image) == before.held().count(image) by {
                assert(slot_images(self@.slots).add(out).add(kept).count(image) == slot_images(
                    before.slots,
                ).count(image));
            }
            assert(self@.held().add(out).add(kept) =~= before.held());
            assert(self@.in_use() =~= before.in_use());
        }
        StagedBatch { discarded, promotions, acquire }
    }

    /// Displays a batch whose GPU images have been acquired.
    pub fn promote(&mut self, batch: &Vec<Promotion>)
        requires
            old(self)@.wf(),
            old(self)@.room(2 * batch@.len()),
        ensures
            final(self)@ == old(self)@.all_promoted(batch@),
            final(self)@.held() == old(self)@.held().add(promotion_images(batch@).to_multiset()),
            final(self)@.wf(),
    {
        let ghost before = self@;
        let ghost images = promotion_images(batch@);
        let mut i: usize = 0;
        proof {
            assert(images.take(0) =~= Seq::<BufferImage>::empty());
            Seq::<BufferImage>::empty().to_multiset_ensures();
            assert(self@.held() =~= before.held().add(images.take(0).to_multiset()));
        }
        while i < batch.len()
            invariant
                i <= batch@.len(),
                before.room(2 * batch@.len()),
                images == promotion_images(batch@),
                self@.wf(),
                self@ == before.all_promoted(batch@.take(i as int)),
                self@.held() == before.held().add(images.take(i as int).to_multiset()),
                self@.slots.len() + self@.retiring.len() <= before.slots.len()
                    + before.retiring.len() + 2 * i,
            decreases batch@.len() - i,
        {
            let promotion: Promotion = batch[i];
            let ghost step = self@;
            proof {
                assert(batch@.take(i + 1).drop_last() =~= batch@.take(i as int));
                uses_are_bounded(step, promotion.image.source);
                promoting_counts_one_use(step, promotion);
                assert(images.take(i + 1) =~= images.take(i as int).push(promotion.image));
                images.take(i as int).to_multiset_ensures();
            }
            self.promote_one(promotion);
            proof {
                assert(self@.held() =~= before.held().add(images.take(i + 1).to_multiset()));
            }
            i = i + 1;
        }
        assert(batch@.take(i as int) =~= batch@);
        assert(images.take(i as int) =~= images);
    }

    /// Ends the acquisition of a batch: displays it if every GPU image was
    /// acquired, and hands all of it out for release otherwise.
    pub fn settle_batch(&mut self, batch: &Vec<Promotion>, acquired: bool) -> (released: Vec<
        BufferImage,
    >)
        requires
            old(self)@.wf(),
            old(self)@.room(2 * batch@.len()),
        ensures
            acquired ==> released@.len() == 0 && final(self)@ == old(self)@.all_promoted(batch@),
            !acquired ==> released@ == promotion_images(batch@) && final(self)@ == old(self)@,
            final(self)@.held().add(released@.to_multiset()) == old(self)@.held().add(
                promotion_images(batch@).to_multiset(),
            ),
            final(self)@.wf(),
    {
        let ghost images = promotion_images(batch@);
        let mut released: Vec<BufferImage> = Vec::new();
        if acquired {
            self.promote(batch);
            proof {
                Seq::<BufferImage>::empty().to_multiset_ensures();
                assert(released@ =~= Seq::<BufferImage>::empty());
                assert(self@.held().add(released@.to_multiset()) =~= self@.held());
            }
            return released;
        }
        let mut i: usize = 0;
        while i < batch.len()
            invariant
                i <= batch@.len(),
                images == promotion_images(batch@),
                released@ == images.take(i as int),
            decreases batch@.len() - i,
        {
            released.push(batch[i].image);
            assert(released@ =~= images.take(i + 1));
            i = i + 1;
        }
        assert(images.take(i as int) =~= images);
        released
    }

    fn promote_one(&mut self, promotion: Promotion)
        requires
            uses_of(old(self)@.acquired, promotion.image.source) < usize::MAX,
        ensures
            final(self)@ == old(self)@.promoted(promotion),
            final(self)@.slots.len() + final(self)@.retiring.len() <= old(self)@.slots.len()
                + old(self)@.retiring.len() + 2,
    {
        let index: usize = self.find_slot(promotion.surface, promotion.layer);
        proof {
            slot_index_is_a_match(self@.slots, promotion.surface, promotion.layer);
        }
        let before: LayerSlot = if index < self.slots.len() {
            self.slots[index]
        } else {
            LayerSlot {
                surface: promotion.surface,
                layer: promotion.layer,
                staged: None,
                displayed: None,
            }
        };
        self.acquired.retain(promotion.image.source);
        self.place_slot(
            index,
            LayerSlot {
                surface: promotion.surface,
                layer: promotion.layer,
                staged: before.staged,
                displayed: Some(promotion.image),
            },
        );
        match before.displayed {
            Some(displayed) => {
                self.retiring.push(displayed);
            },
            None => {},
        }
        assert(self@ =~= old(self)@.promoted(promotion));
    }

    /// Plans the retirement of the buffers that were replaced after they were
    /// shown; nothing to do where there are none.
    pub fn plan_finish(&self) -> (plan: Result<Option<SourceRetirementPlan>, RetirementUnderflow>)
        ensures
            plan is Err <==> !batch_fits(self@.acquired, image_sources(self@.retiring)),
            self@.wf() ==> plan is Ok,
            plan matches Ok(None) ==> self@.retiring.len() == 0,
            plan matches Ok(Some(plan)) ==> {
                &&& self@.retiring.len() > 0
                &&& batch_counts(plan.counts@, image_sources(self@.retiring))
                &&& plan.releases@.no_duplicates()
                &&& forall|source: u64|
                    #![trigger plan.releases@.contains(source)]
                    plan.releases@.contains(source) <==> plan.counts@.contains_key(source) && plan.counts@[source]
                        == uses_of(self@.acquired, source)
            },
    {
        proof {
            if self@.wf() {
                retiring_uses_are_counted(self@);
            }
            if self@.retiring.len() == 0 {
                assert(image_sources(self@.retiring) =~= Seq::<u64>::empty());
                Seq::<u64>::empty().to_multiset_ensures();
            }
        }
        if self.retiring.len() == 0 {
            return Ok(None);
        }
        let sources = collect_sources(&self.retiring);
        match self.acquired.plan_retirements(&sources) {
            Ok(plan) => Ok(Some(plan)),
            Err(underflow) => Err(underflow),
        }
    }

    /// Retires the planned buffers and hands them out for release.
    pub fn commit_finish(&mut self, plan: &SourceRetirementPlan) -> (released: Vec<BufferImage>)
        requires
            old(self)@.wf(),
            batch_counts(plan.counts@, image_sources(old(self)@.retiring)),
        ensures
            released@ == old(self)@.retiring,
            final(self)@ == (LayersModel {
                retiring: Seq::empty(),
                acquired: retired(old(self)@.acquired, plan.counts@),
                ..old(self)@
            }),
            final(self)@.held().add(released@.to_multiset()) == old(self)@.held(),
            final(self)@.wf(),
    {
        let ghost before = self@;
        let ghost ended = image_sources(before.retiring).to_multiset();
        proof {
            retiring_uses_are_counted(before);
            assert forall|source: u64| #[trigger]
                before.acquired.contains_key(source) && plan.counts@.contains_key(
                    source,
                ) implies plan.counts@[source] <= before.acquired[source] by {
                assert(uses_of(plan.counts@, source) == ended.count(source));
            }
        }
        self.acquired.commit_retirements(plan);
        let mut released: Vec<BufferImage> = Vec::new();
        std::mem::swap(&mut released, &mut self.retiring);
        proof {
            Seq::<BufferImage>::empty().to_multiset_ensures();
            Seq::<u64>::empty().to_multiset_ensures();
            assert(self@.retiring =~= Seq::<BufferImage>::empty());
            assert(image_sources(self@.retiring) =~= Seq::<u64>::empty());
            assert(self@.held().add(released@.to_multiset()) =~= before.held());
            assert forall|source: u64|
                #![trigger uses_of(self@.acquired, source)]
                #![trigger self@.in_use().count(source)]
                uses_of(self@.acquired, source) == self@.in_use().count(source) by {
                assert(uses_of(before.acquired, source) == before.in_use().count(source));
                assert(uses_of(plan.counts@, source) == ended.count(source));
                assert(plan.counts@.contains_key(source) <==> ended.count(source) > 0);
            }
        }
        released
    }

    /// Keeps only `retained` of the layers of `surface`.
    pub fn retain_surface_layers(&mut self, surface: SurfaceId, retained: &Vec<u64>)
        ensures
            final(self)@ == old(self)@.trimmed(surface, retained@),
            final(self)@.held() == old(self)@.held(),
            old(self)@.wf() ==> final(self)@.wf(),
    {
        let ghost before = self@;
        let mut kept: Vec<LayerSlot> = Vec::new();
        let mut i: usize = 0;
        while i < self.slots.len()
            invariant
                i <= self.slots@.len(),
                self@.slots == before.slots,
                self@.acquired == before.acquired,
                kept@ == kept_slots(before.slots.take(i as int), surface, retained@),
                self@.superseded =~= before.superseded + dropped_staged(
                    before.slots.take(i as int),
                    surface,
                    retained@,
                ),
                self@.retiring =~= before.retiring + dropped_displayed(
                    before.slots.take(i as int),
                    surface,
                    retained@,
                ),
            decreases self.slots@.len() - i,
        {
            assert(before.slots.take(i + 1).drop_last() =~= before.slots.take(i as int));
            let slot: LayerSlot = self.slots[i];
            if slot.surface == surface && !contains_handle(retained, slot.layer.0) {
                match slot.staged {
                    Some(staged) => {
                        self.superseded.push(staged);
                    },
                    None => {},
                }
                match slot.displayed {
                    Some(displayed) => {
                        self.retiring.push(displayed);
                    },
                    None => {},
                }
            } else {
                kept.push(slot);
            }
            i = i + 1;
        }
        assert(before.slots.take(i as int) =~= before.slots);
        self.slots = kept;
        assert(self@ =~= before.trimmed(surface, retained@));
        proof {
            trimming_releases_nothing(before, surface, retained@);
        }
    }

    /// Drops every layer of `surface`.
    pub fn remove_surface(&mut self, surface: SurfaceId)
        ensures
            final(self)@ == old(self)@.trimmed(surface, Seq::empty()),
            final(self)@.held() == old(self)@.held(),
            old(self)@.wf() ==> final(self)@.wf(),
    {
        let none: Vec<u64> = Vec::new();
        assert(none@ =~= Seq::<u64>::empty());
        self.retain_surface_layers(surface, &none);
    }

    /// Drops one layer.
    pub fn remove_layer(&mut self, surface: SurfaceId, layer: SurfaceLayerId)
        ensures
            final(self)@ == old(self)@.without_layer(surface, layer),
            final(self)@.held() == old(self)@.held(),
            old(self)@.wf() ==> final(self)@.wf(),
    {
        let index: usize = self.find_slot(surface, layer);
        let ghost before = self@;
        proof {
            slot_index_is_a_match(before.slots, surface, layer);
        }
        if index < self.slots.len() {
            let slot: LayerSlot = self.slots.remove(index);
            match slot.staged {
                Some(staged) => {
                    self.superseded.push(staged);
                },
                None => {},
            }
            match slot.displayed {
                Some(displayed) => {
                    self.retiring.push(displayed);
                },
                None => {},
            }
            assert(self@ =~= before.without_layer(surface, layer));
            proof {
                removing_a_slot(before.slots, index as int);
                appending_an_image(before.superseded, slot.staged);
                appending_an_image(before.retiring, slot.displayed);
                assert forall|image: BufferImage|
                    self@.held().count(image) == before.held().count(image) by {
                    assert(slot_images(self@.slots).add(optional_image(slot.staged)).add(
                        optional_image(slot.displayed),
                    ).count(image) == slot_images(before.slots).count(image));
                }
                assert(self@.held() =~= before.held());
                assert forall|source: u64|
                    self@.in_use().count(source) == before.in_use().count(source) by {
                    assert(displayed_sources(self@.slots).add(
                        optional_source(slot.displayed),
                    ).count(source) == displayed_sources(before.slots).count(source));
                }
                assert(self@.in_use() =~= before.in_use());
            }
        }
    }

    /// Takes every buffer that has not been released.
    pub fn shutdown(&mut self) -> (plan: ShutdownPlan)
        ensures
            plan.staged@ == old(self)@.superseded + all_staged(old(self)@.slots),
            plan.displayed@ == old(self)@.retiring + all_displayed(old(self)@.slots),
            plan.staged@.to_multiset().add(plan.displayed@.to_multiset()) == old(self)@.held(),
            final(self)@ == (LayersModel {
                slots: Seq::empty(),
                superseded: Seq::empty(),
                retiring: Seq::empty(),
                ..old(self)@
            }),
            plan.sources is Some <==> batch_fits(
                old(self)@.acquired,
                image_sources(plan.displayed@),
            ) && !old(self)@.acquired.dom().is_empty(),
            plan.sources matches Some(sources) ==> sources@.no_duplicates() && forall|source: u64|
                #[trigger] sources@.contains(source) <==> old(self)@.acquired.contains_key(source),
    {
        let ghost before = self@;
        let mut staged: Vec<BufferImage> = Vec::new();
        std::mem::swap(&mut staged, &mut self.superseded);
        let mut displayed: Vec<BufferImage> = Vec::new();
        std::mem::swap(&mut displayed, &mut self.retiring);
        let mut slots: Vec<LayerSlot> = Vec::new();
        std::mem::swap(&mut slots, &mut self.slots);
        let mut i: usize = 0;
        while i < slots.len()
            invariant
                i <= slots@.len(),
                slots@ == before.slots,
                staged@ =~= before.superseded + all_staged(before.slots.take(i as int)),
                displayed@ =~= before.retiring + all_displayed(before.slots.take(i as int)),
            decreases slots@.len() - i,
        {
            assert(before.slots.take(i + 1).drop_last() =~= before.slots.take(i as int));
            match slots[i].staged {
                Some(image) => {
                    staged.push(image);
                },
                None => {},
            }
            match slots[i].displayed {
                Some(image) => {
                    displayed.push(image);
                },
                None => {},
            }
            i = i + 1;
        }
        assert(before.slots.take(i as int) =~= before.slots);
        proof {
            emptying_splits_the_buffers(before);
        }
        let sources = collect_sources(&displayed);
        let fits: bool = match self.acquired.plan_retirements(&sources) {
            Ok(_) => true,
            Err(_) => false,
        };
        let in_use = self.acquired.images();
        proof {
            if in_use@.len() == 0 {
                assert forall|source: u64| !before.acquired.dom().contains(source) by {
                    assert(!in_use@.contains(source));
                }
                assert(before.acquired.dom() =~= Set::<u64>::empty());
            } else {
                assert(in_use@.contains(in_use@[0]));
                assert(before.acquired.dom().contains(in_use@[0]));
            }
        }
        let sources: Option<Vec<u64>> = if fits && in_use.len() > 0 {
            Some(in_use)
        } else {
            None
        };
        assert(self@ =~= LayersModel {
            slots: Seq::empty(),
            superseded: Seq::empty(),
            retiring: Seq::empty(),
            ..before
        });
        ShutdownPlan { staged, displayed, sources }
    }

    /// Notes that every GPU image has been handed back.
    pub fn shutdown_submitted(&mut self)
        ensures
            final(self)@ == (LayersModel { acquired: Map::empty(), ..old(self)@ }),
    {
        self.acquired.clear();
    }
}

proof fn unstaging_splits_the_buffers(slots: Seq<LayerSlot>, live: Seq<u64>)
    ensures
        displayed_sources(unstaged(slots)) == displayed_sources(slots),
        slot_images(unstaged(slots)).add(discarded_images(slots, live).to_multiset()).add(
            promotion_images(promotable(slots, live)).to_multiset(),
        ) =~= slot_images(slots),
    decreases slots.len(),
{
    Seq::<BufferImage>::empty().to_multiset_ensures();
    if slots.len() == 0 {
        assert(promotion_images(promotable(slots, live)) =~= Seq::<BufferImage>::empty());
        assert(discarded_images(slots, live) =~= Seq::<BufferImage>::empty());
    } else {
        let lower = slots.drop_last();
        unstaging_splits_the_buffers(lower, live);
        assert(unstaged(slots).drop_last() =~= unstaged(lower));
        discarded_images(lower, live).to_multiset_ensures();
        promotion_images(promotable(lower, live)).to_multiset_ensures();
        if let Some(image) = slots.last().staged {
            if live.contains(image.handle) {
                assert(promotion_images(promotable(slots, live)) =~= promotion_images(
                    promotable(lower, live),
                ).push(image));
            }
        }
        assert forall|image: BufferImage|
            slot_images(unstaged(slots)).add(discarded_images(slots, live).to_multiset()).add(
                promotion_images(promotable(slots, live)).to_multiset(),
            ).count(image) == slot_images(slots).count(image) by {
            assert(slot_images(unstaged(lower)).add(
                discarded_images(lower, live).to_multiset(),
            ).add(promotion_images(promotable(lower, live)).to_multiset()).count(image)
                == slot_images(lower).count(image));
        }
    }
}

proof fn retiring_uses_are_counted(state: LayersModel)
    requires
        state.wf(),
    ensures
        batch_fits(state.acquired, image_sources(state.retiring)),
{
    assert forall|source: u64|
        #![trigger image_sources(state.retiring).to_multiset().count(source)]
        image_sources(state.retiring).to_multiset().count(source) <= uses_of(
            state.acquired,
            source,
        ) by {
        assert(uses_of(state.acquired, source) == state.in_use().count(source));
    }
}

proof fn uses_are_bounded(state: LayersModel, source: u64)
    requires
        state.wf(),
    ensures
        uses_of(state.acquired, source) <= state.slots.len() + state.retiring.len(),
{
    assert(uses_of(state.acquired, source) == state.in_use().count(source));
    displayed_sources_are_bounded(state.slots, source);
    image_sources(state.retiring).to_multiset_ensures();
    assert(image_sources(state.retiring).to_multiset().count(source) <= state.retiring.len());
}

proof fn displayed_sources_are_bounded(slots: Seq<LayerSlot>, source: u64)
    ensures
        displayed_sources(slots).count(source) <= slots.len(),
    decreases slots.len(),
{
    if slots.len() > 0 {
        displayed_sources_are_bounded(slots.drop_last(), source);
    }
}

proof fn joined_images(left: Seq<BufferImage>, right: Seq<BufferImage>)
    ensures
        (left + right).to_multiset() =~= left.to_multiset().add(right.to_multiset()),
        image_sources(left + right).to_multiset() =~= image_sources(left).to_multiset().add(
            image_sources(right).to_multiset(),
        ),
{
    vstd::seq_lib::lemma_multiset_commutative(left, right);
    vstd::seq_lib::lemma_multiset_commutative(image_sources(left), image_sources(right));
    assert(image_sources(left + right) =~= image_sources(left) + image_sources(right));
}

proof fn trimming_splits_the_slots(
    slots: Seq<LayerSlot>,
    surface: SurfaceId,
    retained: Seq<u64>,
)
    ensures
        slot_images(kept_slots(slots, surface, retained)).add(
            dropped_staged(slots, surface, retained).to_multiset(),
        ).add(dropped_displayed(slots, surface, retained).to_multiset()) =~= slot_images(slots),
        displayed_sources(kept_slots(slots, surface, retained)).add(
            image_sources(dropped_displayed(slots, surface, retained)).to_multiset(),
        ) =~= displayed_sources(slots),
    decreases slots.len(),
{
    Seq::<BufferImage>::empty().to_multiset_ensures();
    Seq::<u64>::empty().to_multiset_ensures();
    if slots.len() == 0 {
        assert(image_sources(Seq::<BufferImage>::empty()) =~= Seq::<u64>::empty());
    } else {
        let lower = slots.drop_last();
        let last = slots.last();
        trimming_splits_the_slots(lower, surface, retained);
        appending_an_image(dropped_staged(lower, surface, retained), last.staged);
        appending_an_image(dropped_displayed(lower, surface, retained), last.displayed);
        adding_a_slot(kept_slots(lower, surface, retained), last);
        assert forall|image: BufferImage|
            slot_images(kept_slots(slots, surface, retained)).add(
                dropped_staged(slots, surface, retained).to_multiset(),
            ).add(dropped_displayed(slots, surface, retained).to_multiset()).count(image)
                == slot_images(slots).count(image) by {
            assert(slot_images(kept_slots(lower, surface, retained)).add(
                dropped_staged(lower, surface, retained).to_multiset(),
            ).add(dropped_displayed(lower, surface, retained).to_multiset()).count(image)
                == slot_images(lower).count(image));
        }
        assert forall|source: u64|
            displayed_sources(kept_slots(slots, surface, retained)).add(
                image_sources(dropped_displayed(slots, surface, retained)).to_multiset(),
            ).count(source) == displayed_sources(slots).count(source) by {
            assert(displayed_sources(kept_slots(lower, surface, retained)).add(
                image_sources(dropped_displayed(lower, surface, retained)).to_multiset(),
            ).count(source) == displayed_sources(lower).count(source));
        }
    }
}

/// Dropping layers releases no buffer by itself: staged ones wait for the next
/// composition, displayed ones for the end of their use.
pub proof fn trimming_releases_nothing(
    state: LayersModel,
    surface: SurfaceId,
    retained: Seq<u64>,
)
    ensures
        state.trimmed(surface, retained).held() == state.held(),
        state.trimmed(surface, retained).in_use() == state.in_use(),
        state.wf() ==> state.trimmed(surface, retained).wf(),
{
    let after = state.trimmed(surface, retained);
    trimming_splits_the_slots(state.slots, surface, retained);
    joined_images(state.superseded, dropped_staged(state.slots, surface, retained));
    joined_images(state.retiring, dropped_displayed(state.slots, surface, retained));
    assert forall|image: BufferImage| after.held().count(image) == state.held().count(image) by {
        assert(slot_images(after.slots).add(
            dropped_staged(state.slots, surface, retained).to_multiset(),
        ).add(dropped_displayed(state.slots, surface, retained).to_multiset()).count(image)
            == slot_images(state.slots).count(image));
    }
    assert(after.held() =~= state.held());
    assert forall|source: u64| after.in_use().count(source) == state.in_use().count(source) by {
        assert(displayed_sources(after.slots).add(
            image_sources(dropped_displayed(state.slots, surface, retained)).to_multiset(),
        ).count(source) == displayed_sources(state.slots).count(source));
    }
    assert(after.in_use() =~= state.in_use());
}

proof fn emptying_splits_the_slots(slots: Seq<LayerSlot>)
    ensures
        all_staged(slots).to_multiset().add(all_displayed(slots).to_multiset()) =~= slot_images(
            slots,
        ),
    decreases slots.len(),
{
    Seq::<BufferImage>::empty().to_multiset_ensures();
    if slots.len() > 0 {
        let lower = slots.drop_last();
        emptying_splits_the_slots(lower);
        appending_an_image(all_staged(lower), slots.last().staged);
        appending_an_image(all_displayed(lower), slots.last().displayed);
        assert forall|image: BufferImage|
            all_staged(slots).to_multiset().add(all_displayed(slots).to_multiset()).count(image)
                == slot_images(slots).count(image) by {
            assert(all_staged(lower).to_multiset().add(all_displayed(lower).to_multiset()).count(
                image,
            ) == slot_images(lower).count(image));
        }
    }
}

proof fn emptying_splits_the_buffers(state: LayersModel)
    ensures
        (state.superseded + all_staged(state.slots)).to_multiset().add(
            (state.retiring + all_displayed(state.slots)).to_multiset(),
        ) =~= state.held(),
{
    emptying_splits_the_slots(state.slots);
    joined_images(state.superseded, all_staged(state.slots));
    joined_images(state.retiring, all_displayed(state.slots));
    assert forall|image: BufferImage|
        (state.superseded + all_staged(state.slots)).to_multiset().add(
            (state.retiring + all_displayed(state.slots)).to_multiset(),
        ).count(image) == state.held().count(image) by {
        assert(all_staged(state.slots).to_multiset().add(
            all_displayed(state.slots).to_multiset(),
        ).count(image) == slot_images(state.slots).count(image));
    }
}

/// An image is taken over from its client to be read by the compositor's own
/// queue family in the fragment shader, and handed back to the client untouched.
pub proof fn images_are_read_by_the_compositor(queue_family: u32)
    ensures
        acquisition(queue_family).before.owner is Foreign,
        acquisition(queue_family).before.layout is General,
        acquisition(queue_family).before.access is MemoryWrite,
        acquisition(queue_family).before.stage is AllCommands,
        acquisition(queue_family).after.owner == ImageOwner::Family(queue_family),
        acquisition(queue_family).after.layout is ShaderReadOnly,
        acquisition(queue_family).after.access is ShaderRead,
        acquisition(queue_family).after.stage is FragmentShader,
        hand_back(queue_family).before.owner == ImageOwner::Family(queue_family),
        hand_back(queue_family).after.access is Untouched,
        hand_back(queue_family).after.stage is BottomOfPipe,
{
}

/// What was put for a layer is what is found for it, and what is found for any
/// other layer stays the same.
pub proof fn slots_are_found_as_they_were_put(
    slots: Seq<LayerSlot>,
    slot: LayerSlot,
    surface: SurfaceId,
    layer: SurfaceLayerId,
)
    ensures
        slot_of(with_slot(slots, slot), slot.surface, slot.layer) == slot,
        surface != slot.surface || layer != slot.layer ==> slot_of(
            with_slot(slots, slot),
            surface,
            layer,
        ) == slot_of(slots, surface, layer),
        slot_of(slots, surface, layer).surface == surface,
        slot_of(slots, surface, layer).layer == layer,
{
    let index = slot_index(slots, slot.surface, slot.layer);
    slot_index_is_a_match(slots, slot.surface, slot.layer);
    slot_index_is_a_match(slots, surface, layer);
    if index < slots.len() {
        let after = slots.update(index, slot);
        equal_names_are_found_alike(slots, after, slot.surface, slot.layer);
        equal_names_are_found_alike(slots, after, surface, layer);
    } else {
        assert(slots.push(slot).drop_last() =~= slots);
    }
}

proof fn equal_names_are_found_alike(
    before: Seq<LayerSlot>,
    after: Seq<LayerSlot>,
    surface: SurfaceId,
    layer: SurfaceLayerId,
)
    requires
        before.len() == after.len(),
        forall|i: int|
            0 <= i < before.len() ==> (#[trigger] before[i]).surface == after[i].surface
                && before[i].layer == after[i].layer,
    ensures
        slot_index(before, surface, layer) == slot_index(after, surface, layer),
    decreases before.len(),
{
    if before.len() > 0 {
        assert forall|i: int| 0 <= i < before.drop_last().len() implies (
        #[trigger] before.drop_last()[i]).surface == after.drop_last()[i].surface
            && before.drop_last()[i].layer == after.drop_last()[i].layer by {
            assert(before[i].surface == after[i].surface);
        }
        equal_names_are_found_alike(before.drop_last(), after.drop_last(), surface, layer);
        assert(before[before.len() - 1].surface == after[after.len() - 1].surface);
    }
}

/// A staged buffer waits on its own layer, which goes on showing what it shows.
/// A buffer that waited there before is superseded; no other layer changes.
pub proof fn staged_buffers_wait_on_their_layer(
    state: LayersModel,
    surface: SurfaceId,
    layer: SurfaceLayerId,
    image: BufferImage,
    other_surface: SurfaceId,
    other_layer: SurfaceLayerId,
)
    ensures
        ({
            let after = state.staged(surface, layer, image);
            let before = slot_of(state.slots, surface, layer);
            &&& slot_of(after.slots, surface, layer).staged == Some(image)
            &&& slot_of(after.slots, surface, layer).displayed == before.displayed
            &&& before.staged is None ==> after.superseded == state.superseded
            &&& before.staged matches Some(waiting) ==> after.superseded == state.superseded.push(
                waiting,
            )
            &&& after.retiring == state.retiring && after.acquired == state.acquired
            &&& other_surface != surface || other_layer != layer ==> slot_of(
                after.slots,
                other_surface,
                other_layer,
            ) == slot_of(state.slots, other_surface, other_layer)
        }),
{
    let slot = slot_of(state.slots, surface, layer);
    slots_are_found_as_they_were_put(state.slots, slot, surface, layer);
    slots_are_found_as_they_were_put(
        state.slots,
        LayerSlot { staged: Some(image), ..slot },
        other_surface,
        other_layer,
    );
}

/// A promoted buffer is what its own layer shows from then on. The buffer that it
/// showed before retires; no other layer changes.
pub proof fn promoted_buffers_are_displayed(
    state: LayersModel,
    promotion: Promotion,
    other_surface: SurfaceId,
    other_layer: SurfaceLayerId,
)
    ensures
        ({
            let after = state.promoted(promotion);
            let before = slot_of(state.slots, promotion.surface, promotion.layer);
            let slot = slot_of(after.slots, promotion.surface, promotion.layer);
            &&& slot.displayed == Some(promotion.image) && slot.staged == before.staged
            &&& before.displayed is None ==> after.retiring == state.retiring
            &&& before.displayed matches Some(shown) ==> after.retiring == state.retiring.push(
                shown,
            )
            &&& after.superseded == state.superseded
            &&& other_surface != promotion.surface || other_layer != promotion.layer ==> slot_of(
                after.slots,
                other_surface,
                other_layer,
            ) == slot_of(state.slots, other_surface, other_layer)
        }),
{
    let slot = slot_of(state.slots, promotion.surface, promotion.layer);
    slots_are_found_as_they_were_put(
        state.slots,
        slot,
        promotion.surface,
        promotion.layer,
    );
    slots_are_found_as_they_were_put(
        state.slots,
        LayerSlot { displayed: Some(promotion.image), ..slot },
        other_surface,
        other_layer,
    );
}

/// A staged buffer is displayed with the next composition, on its own layer, just
/// if its placeholder is still referred to; otherwise it is discarded. No layer
/// has one waiting afterwards, and all show what they showed.
pub proof fn staged_buffers_are_shown_while_referred_to(
    slots: Seq<LayerSlot>,
    live: Seq<u64>,
    i: int,
    image: BufferImage,
)
    requires
        0 <= i < slots.len(),
        slots[i].staged == Some(image),
    ensures
        live.contains(image.handle) ==> promotable(slots, live).contains(
            Promotion { surface: slots[i].surface, layer: slots[i].layer, image },
        ),
        !live.contains(image.handle) ==> discarded_images(slots, live).contains(image),
        unstaged(slots).len() == slots.len(),
        unstaged(slots)[i].staged is None,
        unstaged(slots)[i].displayed == slots[i].displayed,
        unstaged(slots)[i].surface == slots[i].surface,
        unstaged(slots)[i].layer == slots[i].layer,
    decreases slots.len(),
{
    let lower = slots.drop_last();
    let promotion = Promotion { surface: slots[i].surface, layer: slots[i].layer, image };
    if i < lower.len() {
        staged_buffers_are_shown_while_referred_to(lower, live, i, image);
        if live.contains(image.handle) {
            let k = choose|k: int|
                0 <= k < promotable(lower, live).len() && promotable(lower, live)[k] == promotion;
            assert(promotable(slots, live)[k] == promotion);
        } else {
            let k = choose|k: int|
                0 <= k < discarded_images(lower, live).len() && discarded_images(lower, live)[k]
                    == image;
            assert(discarded_images(slots, live)[k] == image);
        }
    } else {
        if live.contains(image.handle) {
            assert(promotable(slots, live).last() == promotion);
        } else {
            assert(discarded_images(slots, live).last() == image);
        }
    }
}

/// Only a buffer that waited is displayed, on the layer that it waited on and
/// while its placeholder is referred to.
pub proof fn only_staged_buffers_are_promoted(slots: Seq<LayerSlot>, live: Seq<u64>, k: int)
    requires
        0 <= k < promotable(slots, live).len(),
    ensures
        live.contains(promotable(slots, live)[k].image.handle),
        exists|i: int|
            #![trigger slots[i]]
            0 <= i < slots.len() && slots[i].surface == promotable(slots, live)[k].surface
                && slots[i].layer == promotable(slots, live)[k].layer && slots[i].staged == Some(
                promotable(slots, live)[k].image,
            ),
    decreases slots.len(),
{
    let lower = slots.drop_last();
    let batch = promotable(lower, live);
    if k < batch.len() {
        only_staged_buffers_are_promoted(lower, live, k);
        let i = choose|i: int|
            #![trigger lower[i]]
            0 <= i < lower.len() && lower[i].surface == batch[k].surface && lower[i].layer
                == batch[k].layer && lower[i].staged == Some(batch[k].image);
        assert(slots[i] == lower[i]);
        assert(promotable(slots, live)[k] == batch[k]);
    } else {
        assert(slots[slots.len() - 1].staged == Some(promotable(slots, live)[k].image));
    }
}

/// A batch acquires every GPU image that it shows and that is not in use yet,
/// once each, and none that is in use.
pub proof fn batches_acquire_what_is_not_in_use(
    batch: Seq<Promotion>,
    acquired: Map<u64, usize>,
    source: u64,
)
    ensures
        acquisitions(batch, acquired).no_duplicates(),
        acquisitions(batch, acquired).contains(source) <==> !acquired.contains_key(source)
            && exists|i: int|
            #![trigger batch[i]]
            0 <= i < batch.len() && batch[i].image.source == source,
    decreases batch.len(),
{
    if batch.len() > 0 {
        let lower = batch.drop_last();
        let last = batch.last().image.source;
        let planned = acquisitions(lower, acquired);
        let all = acquisitions(batch, acquired);
        batches_acquire_what_is_not_in_use(lower, acquired, source);
        batches_acquire_what_is_not_in_use(lower, acquired, last);
        assert(batch[batch.len() - 1].image.source == last);
        if exists|i: int|
            #![trigger lower[i]]
            0 <= i < lower.len() && lower[i].image.source == source {
            let i = choose|i: int|
                #![trigger lower[i]]
                0 <= i < lower.len() && lower[i].image.source == source;
            assert(batch[i] == lower[i]);
        }
        if exists|i: int|
            #![trigger batch[i]]
            0 <= i < batch.len() && batch[i].image.source == source && source != last {
            let i = choose|i: int|
                #![trigger batch[i]]
                0 <= i < batch.len() && batch[i].image.source == source && source != last;
            assert(lower[i] == batch[i]);
        }
        if all.len() > planned.len() {
            assert(all =~= planned.push(last));
            assert(all[planned.len() as int] == last);
            if planned.contains(source) {
                let k = choose|k: int| 0 <= k < planned.len() && planned[k] == source;
                assert(all[k] == source);
            }
            if all.contains(source) && source != last {
                let k = choose|k: int| 0 <= k < all.len() && all[k] == source;
                assert(planned[k] == source);
            }
        }
    }
}

/// Keeping some layers of a surface keeps just those, and every layer of other
/// surfaces, as they are.
pub proof fn trimming_keeps_the_retained_layers(
    slots: Seq<LayerSlot>,
    surface: SurfaceId,
    retained: Seq<u64>,
    slot: LayerSlot,
)
    ensures
        kept_slots(slots, surface, retained).contains(slot) <==> slots.contains(slot) && (
        slot.surface != surface || retained.contains(slot.layer.0)),
    decreases slots.len(),
{
    if slots.len() > 0 {
        let lower = slots.drop_last();
        let kept = kept_slots(lower, surface, retained);
        let all = kept_slots(slots, surface, retained);
        trimming_keeps_the_retained_layers(lower, surface, retained, slot);
        assert(slots[slots.len() - 1] == slots.last());
        if lower.contains(slot) {
            let i = choose|i: int| 0 <= i < lower.len() && lower[i] == slot;
            assert(slots[i] == slot);
        }
        if slots.contains(slot) && slot != slots.last() {
            let i = choose|i: int| 0 <= i < slots.len() && slots[i] == slot;
            assert(lower[i] == slot);
        }
        if all.len() > kept.len() {
            assert(all =~= kept.push(slots.last()));
            assert(all[kept.len() as int] == slots.last());
            if kept.contains(slot) {
                let i = choose|i: int| 0 <= i < kept.len() && kept[i] == slot;
                assert(all[i] == slot);
            }
            if all.contains(slot) && slot != slots.last() {
                let i = choose|i: int| 0 <= i < all.len() && all[i] == slot;
                assert(kept[i] == slot);
            }
        }
    }
}

/// Taking a layer out leaves the buffer that it waited with among the superseded
/// and the one that it showed among the retiring ones. A layer that has none is
/// not missed.
pub proof fn removed_layers_give_up_their_buffers(
    state: LayersModel,
    surface: SurfaceId,
    layer: SurfaceLayerId,
)
    ensures
        ({
            let after = state.without_layer(surface, layer);
            let before = slot_of(state.slots, surface, layer);
            &&& before.staged is None ==> after.superseded == state.superseded
            &&& before.staged matches Some(waiting) ==> after.superseded == state.superseded.push(
                waiting,
            )
            &&& before.displayed is None ==> after.retiring == state.retiring
            &&& before.displayed matches Some(shown) ==> after.retiring == state.retiring.push(
                shown,
            )
            &&& after.acquired == state.acquired
            &&& after.slots.len() <= state.slots.len()
        }),
{
    slot_index_is_a_match(state.slots, surface, layer);
}

/// An image is drawn as what it is: under its handle, upside down just if it is
/// so, and with its alpha just if it has one.
pub proof fn staged_images_are_drawn_as_they_are(
    handle: u64,
    opaque: bool,
    y_inverted: bool,
    image: SurfaceRenderImage,
)
    requires
        call_ensures(staged_render_image, (handle, opaque, y_inverted), image),
    ensures
        image.image == handle && image.y_inverted == y_inverted,
        opaque <==> image.encoding is EncodedOpaque,
        !opaque <==> image.encoding is EncodedPremultiplied,
{
}

} // verus!
