//! The image table behind client surfaces.

use std::collections::HashMap;
use vstd::prelude::*;

verus! {

broadcast use vstd::std_specs::hash::group_hash_axioms;

/// Pixels of one surface layer, as last uploaded.
pub struct SurfaceImage {
    pub width: u32,
    pub height: u32,
    pub pixels: Vec<u8>,
    /// Whether the library created the image and may rewrite it in place.
    pub writable: bool,
}

/// What a [`SurfaceImage`] holds.
#[verifier::ext_equal]
pub struct ImageModel {
    pub width: u32,
    pub height: u32,
    pub pixels: Seq<u8>,
    pub writable: bool,
}

impl View for SurfaceImage {
    type V = ImageModel;

    open spec fn view(&self) -> ImageModel {
        ImageModel {
            width: self.width,
            height: self.height,
            pixels: self.pixels@,
            writable: self.writable,
        }
    }
}

/// Images by handle. A handle is never given out twice.
pub struct Images {
    entries: HashMap<u64, SurfaceImage>,
    next: u64,
}

/// Contents of an [`Images`] table and the handle it gives out next.
#[verifier::ext_equal]
pub struct ImagesModel {
    pub entries: Map<u64, ImageModel>,
    pub next: u64,
}

impl ImagesModel {
    /// No image has a handle that has not been given out.
    pub open spec fn wf(self) -> bool {
        forall|handle: u64| #[trigger]
            self.entries.contains_key(handle) ==> handle < self.next
    }

    /// The table with a new image under the next handle.
    pub open spec fn added(self, image: ImageModel) -> ImagesModel {
        ImagesModel {
            entries: self.entries.insert(self.next, image),
            next: (self.next + 1) as u64,
        }
    }

    /// The table without `handle`.
    pub open spec fn removed(self, handle: u64) -> ImagesModel {
        ImagesModel { entries: self.entries.remove(handle), next: self.next }
    }

    /// The table with the pixels of `handle` replaced.
    pub open spec fn rewritten(
        self,
        handle: u64,
        width: u32,
        height: u32,
        pixels: Seq<u8>,
    ) -> ImagesModel {
        ImagesModel {
            entries: self.entries.insert(
                handle,
                ImageModel { width, height, pixels, writable: self.entries[handle].writable },
            ),
            next: self.next,
        }
    }
}

impl View for Images {
    type V = ImagesModel;

    closed spec fn view(&self) -> ImagesModel {
        ImagesModel { entries: self.entries@.map_values(|image: SurfaceImage| image@), next: self.next }
    }
}

impl Images {
    pub fn new() -> (images: Images)
        ensures
            images@.entries == Map::<u64, ImageModel>::empty(),
            images@.next == 0,
            images@.wf(),
    {
        let images = Images { entries: HashMap::new(), next: 0 };
        assert(images@.entries =~= Map::<u64, ImageModel>::empty());
        images
    }

    pub fn contains(&self, handle: u64) -> (present: bool)
        ensures
            present == self@.entries.contains_key(handle),
    {
        self.entries.contains_key(&handle)
    }

    pub fn get(&self, handle: u64) -> (image: Option<&SurfaceImage>)
        ensures
            match image {
                Some(image) => self@.entries.contains_key(handle) && image@
                    == self@.entries[handle],
                None => !self@.entries.contains_key(handle),
            },
    {
        self.entries.get(&handle)
    }

    /// Stores an image and returns its handle.
    pub fn insert_new(&mut self, width: u32, height: u32, pixels: Vec<u8>, writable: bool) -> (handle: u64)
        requires
            old(self)@.next < u64::MAX,
        ensures
            handle == old(self)@.next,
            final(self)@ == old(self)@.added(ImageModel { width, height, pixels: pixels@, writable }),
            old(self)@.wf() ==> final(self)@.wf() && !old(self)@.entries.contains_key(handle),
    {
        let handle: u64 = self.next;
        self.next = handle + 1;
        self.entries.insert(handle, SurfaceImage { width, height, pixels, writable });
        assert(self@ =~= old(self)@.added(ImageModel { width, height, pixels: pixels@, writable }));
        handle
    }

    pub fn remove(&mut self, handle: u64)
        ensures
            final(self)@ == old(self)@.removed(handle),
            old(self)@.wf() ==> final(self)@.wf(),
    {
        self.entries.remove(&handle);
        assert(self@ =~= old(self)@.removed(handle));
    }

    /// Rewrites the pixels of an image that is present.
    pub fn rewrite(&mut self, handle: u64, width: u32, height: u32, pixels: Vec<u8>)
        requires
            old(self)@.entries.contains_key(handle),
        ensures
            final(self)@ == old(self)@.rewritten(handle, width, height, pixels@),
            old(self)@.wf() ==> final(self)@.wf(),
    {
        let writable: bool = match self.entries.get(&handle) {
            Some(image) => image.writable,
            None => false,
        };
        self.entries.insert(handle, SurfaceImage { width, height, pixels, writable });
        assert(self@ =~= old(self)@.rewritten(handle, width, height, pixels@));
    }
}

/// A new image gets a handle that none had before, and keeps every other image
/// as it is. The next one gets another handle.
pub proof fn new_images_get_new_handles(images: ImagesModel, image: ImageModel, other: u64)
    requires
        images.wf(),
        images.next < u64::MAX,
    ensures
        !images.entries.contains_key(images.next),
        images.added(image).entries.contains_key(images.next),
        images.added(image).entries[images.next] == image,
        images.added(image).next > images.next,
        images.added(image).wf(),
        other != images.next ==> (images.added(image).entries.contains_key(other)
            <==> images.entries.contains_key(other)) && images.added(image).entries[other]
            == images.entries[other],
{
}

/// A removed image is gone and its handle is not given out again; the others
/// stay.
pub proof fn removed_images_are_gone(images: ImagesModel, handle: u64, other: u64)
    requires
        other != handle,
    ensures
        !images.removed(handle).entries.contains_key(handle),
        images.removed(handle).next == images.next,
        images.removed(handle).entries.contains_key(other) <==> images.entries.contains_key(other),
        images.removed(handle).entries.contains_key(other) ==> images.removed(handle).entries[other]
            == images.entries[other],
{
}

/// Rewriting an image replaces its size and its pixels, under the same handle;
/// the others stay.
pub proof fn rewritten_images_keep_their_handle(
    images: ImagesModel,
    handle: u64,
    width: u32,
    height: u32,
    pixels: Seq<u8>,
    other: u64,
)
    requires
        images.entries.contains_key(handle),
    ensures
        ({
            let after = images.rewritten(handle, width, height, pixels);
            &&& after.entries.contains_key(handle)
            &&& after.entries[handle].width == width && after.entries[handle].height == height
            &&& after.entries[handle].pixels == pixels
            &&& after.entries[handle].writable == images.entries[handle].writable
            &&& after.next == images.next
            &&& other != handle ==> after.entries[other] == images.entries[other] && (
            after.entries.contains_key(other) <==> images.entries.contains_key(other))
        }),
{
}

} // verus!
