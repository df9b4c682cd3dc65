//! Long-lived descriptor sets. A builder walks the bindings of one set of a
//! pipeline layout in order; each resource offered is checked against the
//! descriptor it is meant for, and a write is noted for each one accepted.

use crate::vk::descriptor::{
    BufferUsage, BufferViewUsage, DescriptorDesc, DescriptorDescTy, DescriptorImageDesc,
    DescriptorImageDescArray, DescriptorImageDescDimensions, DescriptorType, Format,
    ImageViewInfo, PipelineLayoutDesc,
};
use vstd::prelude::*;

verus! {

/// Why a resource was not accepted for a descriptor.
#[allow(inconsistent_fields)]
#[derive(Debug, Clone, Copy, PartialEq, Eq, Structural)]
pub enum PersistentDescriptorSetError {
    /// Expected one type of resource but got another.
    WrongDescriptorTy {
        /// The expected descriptor type.
        expected: DescriptorType,
    },
    /// Expected nothing.
    EmptyExpected,
    /// Tried to add too many elements to an array.
    ArrayOutOfBounds,
    /// Didn't fill all the elements of an array before leaving.
    MissingArrayElements {
        /// Number of expected elements.
        expected: u32,
        /// Number of elements that were added.
        obtained: u32,
    },
    /// The image view isn't compatible with the sampler.
    IncompatibleImageViewSampler,
    /// The buffer or image is missing the correct usage.
    MissingUsage,
    /// Expected a multisampled image, but got a single-sampled image.
    ExpectedMultisampled,
    /// Expected a single-sampled image, but got a multisampled image.
    UnexpectedMultisampled,
    /// The number of array layers of an image doesn't match what was expected.
    ArrayLayersMismatch {
        /// Number of expected array layers for the image.
        expected: u32,
        /// Number of array layers of the image that was added.
        obtained: u32,
    },
    /// The format of an image view doesn't match what was expected.
    ImageViewFormatMismatch {
        /// Expected format.
        expected: Format,
        /// Format of the image view that was passed.
        obtained: Format,
    },
    /// The type of an image view doesn't match what was expected.
    ImageViewTypeMismatch {
        /// Expected type.
        expected: DescriptorImageDescDimensions,
        /// Type of the image view that was passed.
        obtained: DescriptorImageDescDimensions,
    },
}

impl PersistentDescriptorSetError {
    /// The error in words.
    pub open spec fn spec_description(&self) -> &'static str {
        match *self {
            PersistentDescriptorSetError::WrongDescriptorTy { .. } => {
                "expected one type of resource but got another"
            },
            PersistentDescriptorSetError::EmptyExpected => {
                "expected an empty descriptor but got something"
            },
            PersistentDescriptorSetError::ArrayOutOfBounds => {
                "tried to add too many elements to an array"
            },
            PersistentDescriptorSetError::MissingArrayElements { .. } => {
                "didn't fill all the elements of an array before leaving"
            },
            PersistentDescriptorSetError::IncompatibleImageViewSampler => {
                "the image view isn't compatible with the sampler"
            },
            PersistentDescriptorSetError::MissingUsage => {
                "the buffer or image is missing the correct usage"
            },
            PersistentDescriptorSetError::ExpectedMultisampled => {
                "expected a multisampled image, but got a single-sampled image"
            },
            PersistentDescriptorSetError::UnexpectedMultisampled => {
                "expected a single-sampled image, but got a multisampled image"
            },
            PersistentDescriptorSetError::ArrayLayersMismatch { .. } => {
                "the number of array layers of an image doesn't match what was expected"
            },
            PersistentDescriptorSetError::ImageViewFormatMismatch { .. } => {
                "the format of an image view doesn't match what was expected"
            },
            PersistentDescriptorSetError::ImageViewTypeMismatch { .. } => {
                "the type of an image view doesn't match what was expected"
            },
        }
    }

    /// The error in words.
    pub fn description(&self) -> (text: &'static str)
        ensures
            text == self.spec_description(),
    {
        match *self {
            PersistentDescriptorSetError::WrongDescriptorTy { .. } => {
                "expected one type of resource but got another"
            },
            PersistentDescriptorSetError::EmptyExpected => {
                "expected an empty descriptor but got something"
            },
            PersistentDescriptorSetError::ArrayOutOfBounds => {
                "tried to add too many elements to an array"
            },
            PersistentDescriptorSetError::MissingArrayElements { .. } => {
                "didn't fill all the elements of an array before leaving"
            },
            PersistentDescriptorSetError::IncompatibleImageViewSampler => {
                "the image view isn't compatible with the sampler"
            },
            PersistentDescriptorSetError::MissingUsage => {
                "the buffer or image is missing the correct usage"
            },
            PersistentDescriptorSetError::ExpectedMultisampled => {
                "expected a multisampled image, but got a single-sampled image"
            },
            PersistentDescriptorSetError::UnexpectedMultisampled => {
                "expected a single-sampled image, but got a multisampled image"
            },
            PersistentDescriptorSetError::ArrayLayersMismatch { .. } => {
                "the number of array layers of an image doesn't match what was expected"
            },
            PersistentDescriptorSetError::ImageViewFormatMismatch { .. } => {
                "the format of an image view doesn't match what was expected"
            },
            PersistentDescriptorSetError::ImageViewTypeMismatch { .. } => {
                "the type of an image view doesn't match what was expected"
            },
        }
    }
}

/// Out of memory, on one side or the other.
#[derive(Debug, Clone, Copy, PartialEq, Eq, Structural)]
pub enum OomError {
    /// There is no memory available on the host.
    OutOfHostMemory,
    /// There is no memory available on the device.
    OutOfDeviceMemory,
}

/// Why a descriptor set could not be built.
#[derive(Debug, Clone, Copy, PartialEq, Eq, Structural)]
pub enum PersistentDescriptorSetBuildError {
    /// Out of memory.
    OomError(OomError),
    /// Didn't fill all the descriptors before building.
    MissingDescriptors {
        /// Number of expected descriptors.
        expected: u32,
        /// Number of descriptors that were added.
        obtained: u32,
    },
}

impl PersistentDescriptorSetBuildError {
    /// The error in words.
    pub open spec fn spec_description(&self) -> &'static str {
        match *self {
            PersistentDescriptorSetBuildError::MissingDescriptors { .. } => {
                "didn't fill all the descriptors before building"
            },
            PersistentDescriptorSetBuildError::OomError(_) => "not enough memory available",
        }
    }

    /// The error in words.
    pub fn description(&self) -> (text: &'static str)
        ensures
            text == self.spec_description(),
    {
        match *self {
            PersistentDescriptorSetBuildError::MissingDescriptors { .. } => {
                "didn't fill all the descriptors before building"
            },
            PersistentDescriptorSetBuildError::OomError(_) => "not enough memory available",
        }
    }
}

impl From<OomError> for PersistentDescriptorSetBuildError {
    fn from(err: OomError) -> (e: PersistentDescriptorSetBuildError) {
        PersistentDescriptorSetBuildError::OomError(err)
    }
}

impl vstd::std_specs::convert::FromSpecImpl<OomError> for PersistentDescriptorSetBuildError {
    open spec fn obeys_from_spec() -> bool {
        true
    }

    open spec fn from_spec(err: OomError) -> PersistentDescriptorSetBuildError {
        PersistentDescriptorSetBuildError::OomError(err)
    }
}

/// Whether an image with `layers` array layers fits what a descriptor
/// expects; if not, the number that it expects.
pub open spec fn layers_expected(expected: DescriptorImageDescArray, layers: u32) -> Option<u32> {
    match expected {
        DescriptorImageDescArray::NonArrayed => if layers != 1 {
            Some(1u32)
        } else {
            None
        },
        DescriptorImageDescArray::Arrayed { max_layers: Some(max_layers) } => if layers
            > max_layers {
            Some(max_layers)
        } else {
            None
        },
        DescriptorImageDescArray::Arrayed { max_layers: None } => None,
    }
}

/// The first thing, if any, that keeps an image view from a descriptor that
/// holds an image. The checks come in this order: the usage that the
/// descriptor needs; the kind of image; the format, where the descriptor
/// names one; single or multiple samples; the number of array layers.
pub open spec fn spec_image_match_desc(
    image_view: ImageViewInfo,
    desc: DescriptorImageDesc,
) -> Result<(), PersistentDescriptorSetError> {
    if desc.sampled && !image_view.usage_sampled {
        Err(PersistentDescriptorSetError::MissingUsage)
    } else if !desc.sampled && !image_view.usage_storage {
        Err(PersistentDescriptorSetError::MissingUsage)
    } else if image_view.dimensions != desc.dimensions {
        Err(
            PersistentDescriptorSetError::ImageViewTypeMismatch {
                expected: desc.dimensions,
                obtained: image_view.dimensions,
            },
        )
    } else if desc.format is Some && image_view.format != desc.format->Some_0 {
        Err(
            PersistentDescriptorSetError::ImageViewFormatMismatch {
                expected: desc.format->Some_0,
                obtained: image_view.format,
            },
        )
    } else if desc.multisampled && image_view.samples == 1 {
        Err(PersistentDescriptorSetError::ExpectedMultisampled)
    } else if !desc.multisampled && image_view.samples != 1 {
        Err(PersistentDescriptorSetError::UnexpectedMultisampled)
    } else {
        match layers_expected(desc.array_layers, image_view.array_layers) {
            Some(expected) => Err(
                PersistentDescriptorSetError::ArrayLayersMismatch {
                    expected,
                    obtained: image_view.array_layers,
                },
            ),
            None => Ok(()),
        }
    }
}

/// Checks whether an image view matches the descriptor.
pub fn image_match_desc(image_view: &ImageViewInfo, desc: &DescriptorImageDesc) -> (r: Result<
    (),
    PersistentDescriptorSetError,
>)
    ensures
        r == spec_image_match_desc(*image_view, *desc),
{
    if desc.sampled && !image_view.usage_sampled {
        return Err(PersistentDescriptorSetError::MissingUsage);
    } else if !desc.sampled && !image_view.usage_storage {
        return Err(PersistentDescriptorSetError::MissingUsage);
    }
    let image_view_ty = image_view.dimensions;
    if image_view_ty != desc.dimensions {
        return Err(
            PersistentDescriptorSetError::ImageViewTypeMismatch {
                expected: desc.dimensions,
                obtained: image_view_ty,
            },
        );
    }
    if let Some(format) = desc.format {
        if image_view.format != format {
            return Err(
                PersistentDescriptorSetError::ImageViewFormatMismatch {
                    expected: format,
                    obtained: image_view.format,
                },
            );
        }
    }
    if desc.multisampled && image_view.samples == 1 {
        return Err(PersistentDescriptorSetError::ExpectedMultisampled);
    } else if !desc.multisampled && image_view.samples != 1 {
        return Err(PersistentDescriptorSetError::UnexpectedMultisampled);
    }
    let image_layers = image_view.array_layers;

    match desc.array_layers {
        DescriptorImageDescArray::NonArrayed => {
            if image_layers != 1 {
                return Err(
                    PersistentDescriptorSetError::ArrayLayersMismatch {
                        expected: 1,
                        obtained: image_layers,
                    },
                );
            }
        },
        DescriptorImageDescArray::Arrayed { max_layers: Some(max_layers) } => {
            if image_layers > max_layers {
                return Err(
                    PersistentDescriptorSetError::ArrayLayersMismatch {
                        expected: max_layers,
                        obtained: image_layers,
                    },
                );
            }
        },
        DescriptorImageDescArray::Arrayed { max_layers: None } => {},
    };

    Ok(())
}

/// An image view is accepted by a descriptor that holds an image exactly
/// when it has the usage that the descriptor needs, is of the kind and, where
/// one is named, of the format that the descriptor expects, is multisampled
/// if and only if the descriptor is, and has a number of layers that the
/// descriptor allows.
pub proof fn lemma_image_match_desc_ok(image_view: ImageViewInfo, desc: DescriptorImageDesc)
    ensures
        spec_image_match_desc(image_view, desc) is Ok <==> {
            &&& if desc.sampled {
                image_view.usage_sampled
            } else {
                image_view.usage_storage
            }
            &&& image_view.dimensions == desc.dimensions
            &&& desc.format is Some ==> desc.format == Some(image_view.format)
            &&& desc.multisampled <==> image_view.samples != 1
            &&& match desc.array_layers {
                DescriptorImageDescArray::NonArrayed => image_view.array_layers == 1,
                DescriptorImageDescArray::Arrayed { max_layers: Some(max_layers) } => {
                    image_view.array_layers <= max_layers
                },
                DescriptorImageDescArray::Arrayed { max_layers: None } => true,
            }
        },
{
}

/// An index as the 32-bit number that a write carries: its low 32 bits.
pub open spec fn spec_index_u32(index: usize) -> u32 {
    #[verifier::truncate]
    (index as u32)
}

/// An index as the 32-bit number that a write carries: its low 32 bits.
pub fn index_u32(index: usize) -> (low: u32)
    ensures
        low == spec_index_u32(index),
{
    #[verifier::truncate]
    (index as u32)
}

/// One write to perform on a descriptor set: which array element of which
/// binding gets a resource, and as what the resource is bound.
#[derive(Debug, Clone, Copy, PartialEq, Eq, Structural)]
pub struct DescriptorWrite {
    pub binding: u32,
    pub first_array_element: u32,
    pub ty: DescriptorType,
}

/// The resources bound to a descriptor set, as far as a user of the set
/// looks them up: the buffers in the order bound, and the images likewise,
/// each with the number of the descriptor that it is bound to.
pub trait PersistentDescriptorSetResources {
    /// For each buffer, in the order bound, the number of its descriptor.
    spec fn buffers(&self) -> Seq<u32>;

    /// For each image, in the order bound, the number of its descriptor.
    spec fn images(&self) -> Seq<u32>;

    /// The number of buffers.
    fn num_buffers(&self) -> (n: usize)
        requires
            self.buffers().len() <= usize::MAX,
        ensures
            n == self.buffers().len(),
    ;

    /// The descriptor of the buffer at `index`; `None` past the last one.
    fn buffer(&self, index: usize) -> (r: Option<u32>)
        requires
            self.buffers().len() <= usize::MAX,
        ensures
            r == (if index < self.buffers().len() {
                Some(self.buffers()[index as int])
            } else {
                None
            }),
    ;

    /// The number of images.
    fn num_images(&self) -> (n: usize)
        requires
            self.images().len() <= usize::MAX,
        ensures
            n == self.images().len(),
    ;

    /// The descriptor of the image at `index`; `None` past the last one.
    fn image(&self, index: usize) -> (r: Option<u32>)
        requires
            self.images().len() <= usize::MAX,
        ensures
            r == (if index < self.images().len() {
                Some(self.images()[index as int])
            } else {
                None
            }),
    ;
}

impl PersistentDescriptorSetResources for () {
    open spec fn buffers(&self) -> Seq<u32> {
        Seq::empty()
    }

    open spec fn images(&self) -> Seq<u32> {
        Seq::empty()
    }

    fn num_buffers(&self) -> (n: usize) {
        0
    }

    fn buffer(&self, _index: usize) -> (r: Option<u32>) {
        None
    }

    fn num_images(&self) -> (n: usize) {
        0
    }

    fn image(&self, _index: usize) -> (r: Option<u32>) {
        None
    }
}

/// A buffer bound to a descriptor set.
pub struct PersistentDescriptorSetBuf<B> {
    pub buffer: B,
    pub descriptor_num: u32,
}

impl<R, B> PersistentDescriptorSetResources for (R, PersistentDescriptorSetBuf<B>) where
    R: PersistentDescriptorSetResources,
 {
    open spec fn buffers(&self) -> Seq<u32> {
        self.0.buffers().push(self.1.descriptor_num)
    }

    open spec fn images(&self) -> Seq<u32> {
        self.0.images()
    }

    fn num_buffers(&self) -> (n: usize) {
        self.0.num_buffers() + 1
    }

    fn buffer(&self, index: usize) -> (r: Option<u32>) {
        if let Some(buf) = self.0.buffer(index) {
            Some(buf)
        } else if index == self.0.num_buffers() {
            Some(self.1.descriptor_num)
        } else {
            None
        }
    }

    fn num_images(&self) -> (n: usize) {
        self.0.num_images()
    }

    fn image(&self, index: usize) -> (r: Option<u32>) {
        self.0.image(index)
    }
}

/// A buffer view bound to a descriptor set. It counts among the buffers.
pub struct PersistentDescriptorSetBufView<V> {
    pub view: V,
    pub descriptor_num: u32,
}

impl<R, V> PersistentDescriptorSetResources for (R, PersistentDescriptorSetBufView<V>) where
    R: PersistentDescriptorSetResources,
 {
    open spec fn buffers(&self) -> Seq<u32> {
        self.0.buffers().push(self.1.descriptor_num)
    }

    open spec fn images(&self) -> Seq<u32> {
        self.0.images()
    }

    fn num_buffers(&self) -> (n: usize) {
        self.0.num_buffers() + 1
    }

    fn buffer(&self, index: usize) -> (r: Option<u32>) {
        if let Some(buf) = self.0.buffer(index) {
            Some(buf)
        } else if index == self.0.num_buffers() {
            Some(self.1.descriptor_num)
        } else {
            None
        }
    }

    fn num_images(&self) -> (n: usize) {
        self.0.num_images()
    }

    fn image(&self, index: usize) -> (r: Option<u32>) {
        self.0.image(index)
    }
}

/// A run of image views bound to one descriptor of a set.
pub struct PersistentDescriptorSetImgArray<I> {
    pub images: Vec<I>,
    pub descriptor_num: u32,
}

impl<R, I> PersistentDescriptorSetResources for (R, PersistentDescriptorSetImgArray<I>) where
    R: PersistentDescriptorSetResources,
 {
    open spec fn buffers(&self) -> Seq<u32> {
        self.0.buffers()
    }

    open spec fn images(&self) -> Seq<u32> {
        self.0.images() + Seq::new(self.1.images@.len(), |i: int| self.1.descriptor_num)
    }

    fn num_buffers(&self) -> (n: usize) {
        self.0.num_buffers()
    }

    fn buffer(&self, index: usize) -> (r: Option<u32>) {
        self.0.buffer(index)
    }

    fn num_images(&self) -> (n: usize) {
        self.0.num_images() + self.1.images.len()
    }

    fn image(&self, index: usize) -> (r: Option<u32>) {
        if let Some(img) = self.0.image(index) {
            Some(img)
        } else if index >= self.0.num_images() && index - self.0.num_images()
            < self.1.images.len() {
            Some(self.1.descriptor_num)
        } else {
            None
        }
    }
}

/// An image view bound to a descriptor set.
pub struct PersistentDescriptorSetImg<I> {
    pub image: I,
    pub descriptor_num: u32,
}

impl<R, I> PersistentDescriptorSetResources for (R, PersistentDescriptorSetImg<I>) where
    R: PersistentDescriptorSetResources,
 {
    open spec fn buffers(&self) -> Seq<u32> {
        self.0.buffers()
    }

    open spec fn images(&self) -> Seq<u32> {
        self.0.images().push(self.1.descriptor_num)
    }

    fn num_buffers(&self) -> (n: usize) {
        self.0.num_buffers()
    }

    fn buffer(&self, index: usize) -> (r: Option<u32>) {
        self.0.buffer(index)
    }

    fn num_images(&self) -> (n: usize) {
        self.0.num_images() + 1
    }

    fn image(&self, index: usize) -> (r: Option<u32>) {
        if let Some(img) = self.0.image(index) {
            Some(img)
        } else if index == self.0.num_images() {
            Some(self.1.descriptor_num)
        } else {
            None
        }
    }
}

/// A sampler bound to a descriptor set. It counts neither among the
/// buffers nor among the images.
pub struct PersistentDescriptorSetSampler<S> {
    pub sampler: S,
}

impl<R, S> PersistentDescriptorSetResources for (R, PersistentDescriptorSetSampler<S>) where
    R: PersistentDescriptorSetResources,
 {
    open spec fn buffers(&self) -> Seq<u32> {
        self.0.buffers()
    }

    open spec fn images(&self) -> Seq<u32> {
        self.0.images()
    }

    fn num_buffers(&self) -> (n: usize) {
        self.0.num_buffers()
    }

    fn buffer(&self, index: usize) -> (r: Option<u32>) {
        self.0.buffer(index)
    }

    fn num_images(&self) -> (n: usize) {
        self.0.num_images()
    }

    fn image(&self, index: usize) -> (r: Option<u32>) {
        self.0.image(index)
    }
}

/// An immutable descriptor set that is expected to be long-lived: the
/// resources bound to one set of a pipeline layout, and the writes that
/// bind them.
pub struct PersistentDescriptorSet<R: PersistentDescriptorSetResources> {
    resources: R,
    layout: PipelineLayoutDesc,
    set_id: usize,
    writes: Vec<DescriptorWrite>,
}

/// Prototype of a [`PersistentDescriptorSet`]. The resources gathered so
/// far are a nest of pairs, the latest outermost.
pub struct PersistentDescriptorSetBuilder<R: PersistentDescriptorSetResources> {
    // The pipeline layout.
    layout: PipelineLayoutDesc,
    // Id of the set within the pipeline layout.
    set_id: usize,
    // Binding currently being filled.
    binding_id: usize,
    // The writes to perform on a descriptor set in order to put the resources in it.
    writes: Vec<DescriptorWrite>,
    // Holds the resources alive.
    resources: R,
}

/// Same as [`PersistentDescriptorSetBuilder`], but we're in an array.
pub struct PersistentDescriptorSetBuilderArray<R: PersistentDescriptorSetResources> {
    // The builder that the array was entered from.
    builder: PersistentDescriptorSetBuilder<R>,
    // Current array elements.
    array_element: usize,
    // Description of the descriptor.
    desc: DescriptorDesc,
}

impl<R> PersistentDescriptorSet<R> where R: PersistentDescriptorSetResources {
    /// The pipeline layout that the set was built for.
    pub closed spec fn layout(&self) -> PipelineLayoutDesc {
        self.layout
    }

    /// The set of the layout that this is.
    pub closed spec fn set_id(&self) -> usize {
        self.set_id
    }

    /// The writes that bind the resources, in the order in which the
    /// resources were added.
    pub closed spec fn writes(&self) -> Seq<DescriptorWrite> {
        self.writes@
    }

    /// The resources bound.
    pub closed spec fn resources(&self) -> R {
        self.resources
    }

    /// The writes that bind the resources.
    pub fn descriptor_writes(&self) -> (writes: &Vec<DescriptorWrite>)
        ensures
            writes@ == self.writes(),
    {
        &self.writes
    }

    /// The resources bound.
    pub fn bound_resources(&self) -> (resources: &R)
        ensures
            *resources == self.resources(),
    {
        &self.resources
    }
}

impl PersistentDescriptorSet<()> {
    /// Starts the process of building a `PersistentDescriptorSet`. Returns a
    /// builder, at the first binding of set `set_id` and with nothing bound.
    pub fn start(layout: PipelineLayoutDesc, set_id: usize) -> (builder:
        PersistentDescriptorSetBuilder<()>)
        requires
            set_id < layout.sets@.len(),
        ensures
            builder.layout() == layout,
            builder.set_id() == set_id,
            builder.binding_id() == 0,
            builder.writes() == Seq::<DescriptorWrite>::empty(),
    {
        let cap = match layout.num_bindings_in_set(set_id) {
            Some(n) => n,
            None => 0,
        };
        PersistentDescriptorSetBuilder {
            layout: layout,
            set_id: set_id,
            binding_id: 0,
            writes: Vec::with_capacity(cap),
            resources: (),
        }
    }
}

impl<R> PersistentDescriptorSet<R> where R: PersistentDescriptorSetResources {
    /// The set is one of its layout, and there is a write for each buffer
    /// and image bound.
    #[verifier::type_invariant]
    spec fn wf(&self) -> bool {
        &&& self.set_id < self.layout.sets@.len()
        &&& self.resources.buffers().len() + self.resources.images().len() <= self.writes@.len()
    }

    /// The number of buffers bound.
    pub fn num_buffers(&self) -> (n: usize)
        ensures
            n == self.resources().buffers().len(),
    {
        proof {
            use_type_invariant(&self);
        }
        proof {
            assert(self.writes.len() == self.writes@.len());
        }
        self.resources.num_buffers()
    }

    /// The descriptor of the buffer at `index`; `None` past the last one.
    pub fn buffer(&self, index: usize) -> (r: Option<u32>)
        ensures
            r == (if index < self.resources().buffers().len() {
                Some(self.resources().buffers()[index as int])
            } else {
                None
            }),
    {
        proof {
            use_type_invariant(&self);
        }
        proof {
            assert(self.writes.len() == self.writes@.len());
        }
        self.resources.buffer(index)
    }

    /// The number of images bound.
    pub fn num_images(&self) -> (n: usize)
        ensures
            n == self.resources().images().len(),
    {
        proof {
            use_type_invariant(&self);
        }
        proof {
            assert(self.writes.len() == self.writes@.len());
        }
        self.resources.num_images()
    }

    /// The descriptor of the image at `index`; `None` past the last one.
    pub fn image(&self, index: usize) -> (r: Option<u32>)
        ensures
            r == (if index < self.resources().images().len() {
                Some(self.resources().images()[index as int])
            } else {
                None
            }),
    {
        proof {
            use_type_invariant(&self);
        }
        proof {
            assert(self.writes.len() == self.writes@.len());
        }
        self.resources.image(index)
    }

    /// The number of bindings of the set, empty ones included.
    pub fn num_bindings(&self) -> (n: usize)
        ensures
            Some(n) == self.layout().spec_num_bindings_in_set(self.set_id()),
    {
        proof {
            use_type_invariant(&self);
        }
        match self.layout.num_bindings_in_set(self.set_id) {
            Some(n) => n,
            None => 0,
        }
    }

    /// The descriptor at `binding` of the set; `None` where the binding is
    /// empty or out of range.
    pub fn descriptor(&self, binding: usize) -> (desc: Option<DescriptorDesc>)
        ensures
            desc == self.layout().spec_descriptor(self.set_id(), binding),
    {
        self.layout.descriptor(self.set_id, binding)
    }
}

impl<R> PersistentDescriptorSetBuilder<R> where R: PersistentDescriptorSetResources {
    /// The pipeline layout that the set is built for.
    pub closed spec fn layout(&self) -> PipelineLayoutDesc {
        self.layout
    }

    /// The set of the layout that is being built.
    pub closed spec fn set_id(&self) -> usize {
        self.set_id
    }

    /// The binding that comes next.
    pub closed spec fn binding_id(&self) -> usize {
        self.binding_id
    }

    /// The writes noted so far.
    pub closed spec fn writes(&self) -> Seq<DescriptorWrite> {
        self.writes@
    }

    /// The resources accepted so far.
    pub closed spec fn resources(&self) -> R {
        self.resources
    }

    /// The descriptor that the layout has at the binding that comes next.
    pub open spec fn descriptor(&self) -> Option<DescriptorDesc> {
        self.layout().spec_descriptor(self.set_id(), self.binding_id())
    }

    /// The number of the binding that comes next.
    pub fn next_binding(&self) -> (binding: usize)
        ensures
            binding == self.binding_id(),
    {
        self.binding_id
    }

    /// The writes noted so far.
    pub fn descriptor_writes(&self) -> (writes: &Vec<DescriptorWrite>)
        ensures
            writes@ == self.writes(),
    {
        &self.writes
    }

    /// The resources accepted so far.
    pub fn bound_resources(&self) -> (resources: &R)
        ensures
            *resources == self.resources(),
    {
        &self.resources
    }

    /// The builder has this layout, set, next binding, writes and
    /// resources.
    pub open spec fn holds(
        &self,
        layout: PipelineLayoutDesc,
        set_id: usize,
        binding_id: usize,
        writes: Seq<DescriptorWrite>,
        resources: R,
    ) -> bool {
        &&& self.layout() == layout
        &&& self.set_id() == set_id
        &&& self.binding_id() == binding_id
        &&& self.writes() == writes
        &&& self.resources() == resources
    }
}

impl<R> PersistentDescriptorSetBuilderArray<R> where R: PersistentDescriptorSetResources {
    /// The builder as it is while the array is being filled: at the binding
    /// of the array, with the writes and the resources of the elements
    /// added so far.
    pub closed spec fn builder(&self) -> PersistentDescriptorSetBuilder<R> {
        self.builder
    }

    /// The array element that comes next.
    pub closed spec fn array_element(&self) -> usize {
        self.array_element
    }

    /// The descriptor whose array is being filled.
    pub closed spec fn desc(&self) -> DescriptorDesc {
        self.desc
    }

    /// The number of the array element that comes next.
    pub fn next_element(&self) -> (element: usize)
        ensures
            element == self.array_element(),
    {
        self.array_element
    }

    /// The number of the binding whose array is being filled.
    pub fn binding(&self) -> (binding: usize)
        ensures
            binding == self.builder().binding_id(),
    {
        self.builder.binding_id
    }

    /// Whether the array has taken all the elements that it has room for.
    pub fn is_full(&self) -> (full: bool)
        ensures
            full == !self.has_room(),
    {
        index_u32(self.array_element) >= self.desc.array_count
    }

    /// The writes noted so far, those for the elements of this array
    /// included.
    pub fn descriptor_writes(&self) -> (writes: &Vec<DescriptorWrite>)
        ensures
            writes@ == self.builder().writes(),
    {
        &self.builder.writes
    }

    /// The resources accepted so far, those of this array included.
    pub fn bound_resources(&self) -> (resources: &R)
        ensures
            *resources == self.builder().resources(),
    {
        &self.builder.resources
    }

    /// The write that binds a resource as `ty` to the element that comes
    /// next.
    pub open spec fn next_write(&self, ty: DescriptorType) -> DescriptorWrite {
        DescriptorWrite {
            binding: spec_index_u32(self.builder().binding_id()),
            first_array_element: spec_index_u32(self.array_element()),
            ty,
        }
    }

    /// Whether the array has room for one more element.
    pub open spec fn has_room(&self) -> bool {
        spec_index_u32(self.array_element()) < self.desc().array_count
    }
}

/// As what a buffer is bound to a descriptor of type `ty`, or why it is
/// not: a storage buffer must have been created for storage, a uniform
/// buffer for uniforms, and any other descriptor takes no buffer.
pub open spec fn buffer_write(ty: DescriptorDescTy, usage: BufferUsage) -> Result<
    DescriptorType,
    PersistentDescriptorSetError,
> {
    match ty {
        DescriptorDescTy::Buffer(desc) => if desc.storage {
            if usage.storage_buffer {
                Ok(DescriptorType::StorageBuffer)
            } else {
                Err(PersistentDescriptorSetError::MissingUsage)
            }
        } else {
            if usage.uniform_buffer {
                Ok(DescriptorType::UniformBuffer)
            } else {
                Err(PersistentDescriptorSetError::MissingUsage)
            }
        },
        other => Err(
            PersistentDescriptorSetError::WrongDescriptorTy { expected: other.spec_ty()->Some_0 },
        ),
    }
}

/// As what a buffer view is bound to a descriptor of type `ty`, or why it
/// is not.
pub open spec fn buffer_view_write(ty: DescriptorDescTy, usage: BufferViewUsage) -> Result<
    DescriptorType,
    PersistentDescriptorSetError,
> {
    match ty {
        DescriptorDescTy::TexelBuffer { storage, .. } => if storage {
            if usage.storage_texel_buffer {
                Ok(DescriptorType::StorageTexelBuffer)
            } else {
                Err(PersistentDescriptorSetError::MissingUsage)
            }
        } else {
            if usage.uniform_texel_buffer {
                Ok(DescriptorType::UniformTexelBuffer)
            } else {
                Err(PersistentDescriptorSetError::MissingUsage)
            }
        },
        other => Err(
            PersistentDescriptorSetError::WrongDescriptorTy { expected: other.spec_ty()->Some_0 },
        ),
    }
}

/// As what an image view is bound, without a sampler, to a descriptor of
/// type `ty`, or why it is not. A descriptor that holds an image takes it
/// if [`spec_image_match_desc`] finds no fault; an input attachment needs
/// the usage, then the right sampling, then a number of layers that fits.
pub open spec fn image_write(ty: DescriptorDescTy, view: ImageViewInfo) -> Result<
    DescriptorType,
    PersistentDescriptorSetError,
> {
    match ty {
        DescriptorDescTy::Image(desc) => match spec_image_match_desc(view, desc) {
            Err(e) => Err(e),
            Ok(_) => Ok(
                if desc.sampled {
                    DescriptorType::SampledImage
                } else {
                    DescriptorType::StorageImage
                },
            ),
        },
        DescriptorDescTy::InputAttachment { multisampled, array_layers } => {
            if !view.usage_input_attachment {
                Err(PersistentDescriptorSetError::MissingUsage)
            } else if multisampled && view.samples == 1 {
                Err(PersistentDescriptorSetError::ExpectedMultisampled)
            } else if !multisampled && view.samples != 1 {
                Err(PersistentDescriptorSetError::UnexpectedMultisampled)
            } else {
                match layers_expected(array_layers, view.array_layers) {
                    Some(expected) => Err(
                        PersistentDescriptorSetError::ArrayLayersMismatch {
                            expected,
                            obtained: view.array_layers,
                        },
                    ),
                    None => Ok(DescriptorType::InputAttachment),
                }
            }
        },
        other => Err(
            PersistentDescriptorSetError::WrongDescriptorTy { expected: other.spec_ty()->Some_0 },
        ),
    }
}

/// As what an image view is bound, together with a sampler, to a
/// descriptor of type `ty`, or why it is not. The sampler must be able to
/// sample the view, whatever the descriptor.
pub open spec fn sampled_image_write(ty: DescriptorDescTy, view: ImageViewInfo) -> Result<
    DescriptorType,
    PersistentDescriptorSetError,
> {
    if !view.can_be_sampled {
        Err(PersistentDescriptorSetError::IncompatibleImageViewSampler)
    } else {
        match ty {
            DescriptorDescTy::CombinedImageSampler(desc) => match spec_image_match_desc(
                view,
                desc,
            ) {
                Err(e) => Err(e),
                Ok(_) => Ok(DescriptorType::CombinedImageSampler),
            },
            other => Err(
                PersistentDescriptorSetError::WrongDescriptorTy {
                    expected: other.spec_ty()->Some_0,
                },
            ),
        }
    }
}

/// As what a sampler is bound to a descriptor of type `ty`, or why it is
/// not.
pub open spec fn sampler_write(ty: DescriptorDescTy) -> Result<
    DescriptorType,
    PersistentDescriptorSetError,
> {
    match ty {
        DescriptorDescTy::Sampler => Ok(DescriptorType::Sampler),
        other => Err(
            PersistentDescriptorSetError::WrongDescriptorTy { expected: other.spec_ty()->Some_0 },
        ),
    }
}

/// For each of `infos`, as what the view is bound without a sampler to a
/// descriptor of type `ty`, or why it is not.
pub open spec fn image_outcomes(ty: DescriptorDescTy, infos: Seq<ImageViewInfo>) -> Seq<
    Result<DescriptorType, PersistentDescriptorSetError>,
> {
    infos.map_values(|view: ImageViewInfo| image_write(ty, view))
}

/// For each of `infos`, as what the view is bound with a sampler to a
/// descriptor of type `ty`, or why it is not.
pub open spec fn sampled_image_outcomes(ty: DescriptorDescTy, infos: Seq<ImageViewInfo>) -> Seq<
    Result<DescriptorType, PersistentDescriptorSetError>,
> {
    infos.map_values(|view: ImageViewInfo| sampled_image_write(ty, view))
}

/// Decides [`image_write`].
fn check_image(ty: &DescriptorDescTy, image_view: &ImageViewInfo) -> (r: Result<
    DescriptorType,
    PersistentDescriptorSetError,
>)
    requires
        *ty is Image || *ty is InputAttachment || ty.spec_ty() is Some,
    ensures
        r == image_write(*ty, *image_view),
{
    match *ty {
        DescriptorDescTy::Image(ref desc) => {
            image_match_desc(image_view, desc)?;

            if desc.sampled {
                Ok(DescriptorType::SampledImage)
            } else {
                Ok(DescriptorType::StorageImage)
            }
        },
        DescriptorDescTy::InputAttachment { multisampled, array_layers } => {
            if !image_view.usage_input_attachment {
                return Err(PersistentDescriptorSetError::MissingUsage);
            }
            if multisampled && image_view.samples == 1 {
                return Err(PersistentDescriptorSetError::ExpectedMultisampled);
            } else if !multisampled && image_view.samples != 1 {
                return Err(PersistentDescriptorSetError::UnexpectedMultisampled);
            }
            let image_layers = image_view.array_layers;

            match array_layers {
                DescriptorImageDescArray::NonArrayed => {
                    if image_layers != 1 {
                        return Err(
                            PersistentDescriptorSetError::ArrayLayersMismatch {
                                expected: 1,
                                obtained: image_layers,
                            },
                        );
                    }
                },
                DescriptorImageDescArray::Arrayed { max_layers: Some(max_layers) } => {
                    if image_layers > max_layers {
                        return Err(
                            PersistentDescriptorSetError::ArrayLayersMismatch {
                                expected: max_layers,
                                obtained: image_layers,
                            },
                        );
                    }
                },
                DescriptorImageDescArray::Arrayed { max_layers: None } => {},
            };

            Ok(DescriptorType::InputAttachment)
        },
        ty => {
            Err(PersistentDescriptorSetError::WrongDescriptorTy { expected: ty.ty().unwrap() })
        },
    }
}

/// Decides [`sampled_image_write`].
fn check_sampled_image(ty: &DescriptorDescTy, image_view: &ImageViewInfo) -> (r: Result<
    DescriptorType,
    PersistentDescriptorSetError,
>)
    requires
        !image_view.can_be_sampled || *ty is CombinedImageSampler || ty.spec_ty() is Some,
    ensures
        r == sampled_image_write(*ty, *image_view),
{
    if !image_view.can_be_sampled {
        return Err(PersistentDescriptorSetError::IncompatibleImageViewSampler);
    }
    match *ty {
        DescriptorDescTy::CombinedImageSampler(ref desc) => {
            image_match_desc(image_view, desc)?;
            Ok(DescriptorType::CombinedImageSampler)
        },
        ty => {
            Err(PersistentDescriptorSetError::WrongDescriptorTy { expected: ty.ty().unwrap() })
        },
    }
}

/// Whether `e` is the fault of the first of `outcomes` that is a fault.
pub open spec fn first_fault(
    outcomes: Seq<Result<DescriptorType, PersistentDescriptorSetError>>,
    e: PersistentDescriptorSetError,
) -> bool {
    exists|i: int|
        0 <= i < outcomes.len() && #[trigger] outcomes[i] == Err::<
            DescriptorType,
            PersistentDescriptorSetError,
        >(e) && forall|j: int| 0 <= j < i ==> (#[trigger] outcomes[j]) is Ok
}

/// Whether none of `outcomes` is a fault.
pub open spec fn no_fault(
    outcomes: Seq<Result<DescriptorType, PersistentDescriptorSetError>>,
) -> bool {
    forall|i: int| 0 <= i < outcomes.len() ==> (#[trigger] outcomes[i]) is Ok
}

/// The writes that bind a run of resources to consecutive array elements
/// of `binding`, the first to element `first`, each as `outcomes` says.
pub open spec fn run_of_writes(
    binding: u32,
    first: usize,
    outcomes: Seq<Result<DescriptorType, PersistentDescriptorSetError>>,
) -> Seq<DescriptorWrite> {
    Seq::new(
        outcomes.len(),
        |i: int|
            DescriptorWrite {
                binding,
                first_array_element: spec_index_u32((first + i) as usize),
                ty: outcomes[i]->Ok_0,
            },
    )
}

impl<R> PersistentDescriptorSetBuilder<R> where R: PersistentDescriptorSetResources {
    /// The set is one of the layout, and there is a write for each buffer
    /// and image accepted.
    #[verifier::type_invariant]
    spec fn wf(&self) -> bool {
        &&& self.set_id < self.layout.sets@.len()
        &&& self.resources.buffers().len() + self.resources.images().len() <= self.writes@.len()
    }

    /// The number of bindings of the set, empty ones included.
    pub open spec fn expected_bindings(&self) -> usize {
        self.layout().sets@[self.set_id() as int].len()
    }

    /// Builds a `PersistentDescriptorSet` from the builder: the writes and
    /// the resources as they stand, once every binding of the set has been
    /// passed.
    pub fn build(self) -> (r: Result<PersistentDescriptorSet<R>, PersistentDescriptorSetBuildError>)
        ensures
            match r {
                Ok(set) => {
                    &&& self.expected_bindings() <= self.binding_id()
                    &&& set.layout() == self.layout()
                    &&& set.set_id() == self.set_id()
                    &&& set.writes() == self.writes()
                    &&& set.resources() == self.resources()
                },
                Err(e) => {
                    &&& self.expected_bindings() > self.binding_id()
                    &&& e == PersistentDescriptorSetBuildError::MissingDescriptors {
                        expected: spec_index_u32(self.expected_bindings()),
                        obtained: spec_index_u32(self.binding_id()),
                    }
                },
            },
    {
        proof {
            use_type_invariant(&self);
        }
        let expected_desc = match self.layout.num_bindings_in_set(self.set_id) {
            Some(n) => n,
            None => 0,
        };

        if expected_desc > self.binding_id {
            return Err(
                PersistentDescriptorSetBuildError::MissingDescriptors {
                    expected: index_u32(expected_desc),
                    obtained: index_u32(self.binding_id),
                },
            );
        }
        Ok(
            PersistentDescriptorSet {
                resources: self.resources,
                layout: self.layout,
                set_id: self.set_id,
                writes: self.writes,
            },
        )
    }

    /// Call this function if the next element of the set is an array in order to set the value of
    /// each element.
    ///
    /// Returns an error if the descriptor is empty.
    ///
    /// This function can be called even if the descriptor isn't an array, and it is valid to enter
    /// the "array", add one element, then leave.
    pub fn enter_array(self) -> (r: Result<
        PersistentDescriptorSetBuilderArray<R>,
        PersistentDescriptorSetError,
    >)
        ensures
            match self.descriptor() {
                Some(desc) => {
                    &&& r is Ok
                    &&& r->Ok_0.builder() == self
                    &&& r->Ok_0.array_element() == 0
                    &&& r->Ok_0.desc() == desc
                },
                None => r is Err && r->Err_0 == PersistentDescriptorSetError::EmptyExpected,
            },
    {
        proof {
            use_type_invariant(&self);
        }
        let desc = match self.layout.descriptor(self.set_id, self.binding_id) {
            Some(d) => d,
            None => return Err(PersistentDescriptorSetError::EmptyExpected),
        };

        Ok(PersistentDescriptorSetBuilderArray { builder: self, desc, array_element: 0 })
    }

    /// Skips the current descriptor if it is empty.
    pub fn add_empty(self) -> (r: Result<
        PersistentDescriptorSetBuilder<R>,
        PersistentDescriptorSetError,
    >)
        requires
            self.binding_id() < usize::MAX,
            self.descriptor() is Some ==> self.descriptor()->Some_0.ty.spec_ty() is Some,
        ensures
            match self.descriptor() {
                None => {
                    &&& r is Ok
                    &&& r->Ok_0.holds(
                        self.layout(),
                        self.set_id(),
                        (self.binding_id() + 1) as usize,
                        self.writes(),
                        self.resources(),
                    )
                },
                Some(desc) => r is Err && r->Err_0
                    == (PersistentDescriptorSetError::WrongDescriptorTy {
                    expected: desc.ty.spec_ty()->Some_0,
                }),
            },
    {
        proof {
            use_type_invariant(&self);
        }
        match self.layout.descriptor(self.set_id, self.binding_id) {
            None => (),
            Some(desc) => {
                return Err(
                    PersistentDescriptorSetError::WrongDescriptorTy {
                        expected: desc.ty.ty().unwrap(),
                    },
                )
            },
        }

        let mut builder = self;
        builder.binding_id += 1;
        Ok(builder)
    }
}

impl<R> PersistentDescriptorSetBuilderArray<R> where R: PersistentDescriptorSetResources {
    /// The descriptor being filled is the one that the layout has at the
    /// builder's binding.
    #[verifier::type_invariant]
    spec fn wf(&self) -> bool {
        self.builder.descriptor() == Some(self.desc)
    }

    /// This array builder is `before` after `added` was noted for as many
    /// elements, with `resources` in place of the resources of `before`.
    pub open spec fn follows<Q: PersistentDescriptorSetResources>(
        &self,
        before: PersistentDescriptorSetBuilderArray<Q>,
        added: Seq<DescriptorWrite>,
        resources: R,
    ) -> bool {
        &&& self.desc() == before.desc()
        &&& self.array_element() == before.array_element() + added.len()
        &&& self.builder().holds(
            before.builder().layout(),
            before.builder().set_id(),
            before.builder().binding_id(),
            before.builder().writes() + added,
            resources,
        )
    }

    /// Leaves the array. Call this once you added all the elements of the array.
    pub fn leave_array(self) -> (r: Result<
        PersistentDescriptorSetBuilder<R>,
        PersistentDescriptorSetError,
    >)
        requires
            self.builder().binding_id() < usize::MAX,
        ensures
            if self.has_room() {
                r is Err && r->Err_0 == (PersistentDescriptorSetError::MissingArrayElements {
                    expected: self.desc().array_count,
                    obtained: spec_index_u32(self.array_element()),
                })
            } else {
                &&& r is Ok
                &&& r->Ok_0.holds(
                    self.builder().layout(),
                    self.builder().set_id(),
                    (self.builder().binding_id() + 1) as usize,
                    self.builder().writes(),
                    self.builder().resources(),
                )
            },
    {
        proof {
            use_type_invariant(&self);
            use_type_invariant(&self.builder);
        }
        let obtained = index_u32(self.array_element);
        if self.desc.array_count > obtained {
            return Err(
                PersistentDescriptorSetError::MissingArrayElements {
                    expected: self.desc.array_count,
                    obtained,
                },
            );
        }
        let mut builder = self.builder;
        builder.binding_id += 1;
        Ok(builder)
    }
}

impl<R> PersistentDescriptorSetBuilderArray<R> where R: PersistentDescriptorSetResources {
    /// Binds a buffer as the next element in the array.
    ///
    /// An error is returned if the array is full or if the buffer isn't
    /// compatible with the descriptor.
    pub fn add_buffer<T>(self, buffer: T, usage: BufferUsage) -> (r: Result<
        PersistentDescriptorSetBuilderArray<(R, PersistentDescriptorSetBuf<T>)>,
        PersistentDescriptorSetError,
    >)
        ensures
            match r {
                Ok(array) => {
                    &&& self.has_room()
                    &&& buffer_write(self.desc().ty, usage) is Ok
                    &&& array.follows(
                        self,
                        seq![self.next_write(buffer_write(self.desc().ty, usage)->Ok_0)],
                        (
                            self.builder().resources(),
                            PersistentDescriptorSetBuf {
                                buffer,
                                descriptor_num: spec_index_u32(self.builder().binding_id()),
                            },
                        ),
                    )
                },
                Err(e) => if self.has_room() {
                    buffer_write(self.desc().ty, usage) == Err::<
                        DescriptorType,
                        PersistentDescriptorSetError,
                    >(e)
                } else {
                    e == PersistentDescriptorSetError::ArrayOutOfBounds
                },
            },
    {
        proof {
            use_type_invariant(&self);
            use_type_invariant(&self.builder);
        }
        let binding = index_u32(self.builder.binding_id);
        let element = index_u32(self.array_element);
        if element >= self.desc.array_count {
            return Err(PersistentDescriptorSetError::ArrayOutOfBounds);
        }
        proof {
            lemma_room_for_one_more(self.array_element, self.desc.array_count);
        }
        let ghost noted = self.builder.writes@;
        let mut writes = self.builder.writes;
        writes.push(
            match self.desc.ty {
                DescriptorDescTy::Buffer(ref buffer_desc) => {
                    if buffer_desc.storage {
                        if !usage.storage_buffer {
                            return Err(PersistentDescriptorSetError::MissingUsage);
                        }
                        DescriptorWrite {
                            binding,
                            first_array_element: element,
                            ty: DescriptorType::StorageBuffer,
                        }
                    } else {
                        if !usage.uniform_buffer {
                            return Err(PersistentDescriptorSetError::MissingUsage);
                        }
                        DescriptorWrite {
                            binding,
                            first_array_element: element,
                            ty: DescriptorType::UniformBuffer,
                        }
                    }
                },
                ref d => {
                    return Err(
                        PersistentDescriptorSetError::WrongDescriptorTy {
                            expected: d.ty().unwrap(),
                        },
                    );
                },
            },
        );
        assert(writes@ =~= noted + seq![writes@.last()]);

        Ok(
            PersistentDescriptorSetBuilderArray {
                builder: PersistentDescriptorSetBuilder {
                    layout: self.builder.layout,
                    set_id: self.builder.set_id,
                    binding_id: self.builder.binding_id,
                    writes: writes,
                    resources: (
                        self.builder.resources,
                        PersistentDescriptorSetBuf { buffer: buffer, descriptor_num: binding },
                    ),
                },
                desc: self.desc,
                array_element: self.array_element + 1,
            },
        )
    }

    /// Binds a buffer view as the next element in the array.
    ///
    /// An error is returned if the array is full or if the view isn't
    /// compatible with the descriptor.
    pub fn add_buffer_view<T>(self, view: T, usage: BufferViewUsage) -> (r: Result<
        PersistentDescriptorSetBuilderArray<(R, PersistentDescriptorSetBufView<T>)>,
        PersistentDescriptorSetError,
    >)
        requires
            self.has_room() ==> self.desc().ty is TexelBuffer || self.desc().ty.spec_ty() is Some,
        ensures
            match r {
                Ok(array) => {
                    &&& self.has_room()
                    &&& buffer_view_write(self.desc().ty, usage) is Ok
                    &&& array.follows(
                        self,
                        seq![self.next_write(buffer_view_write(self.desc().ty, usage)->Ok_0)],
                        (
                            self.builder().resources(),
                            PersistentDescriptorSetBufView {
                                view,
                                descriptor_num: spec_index_u32(self.builder().binding_id()),
                            },
                        ),
                    )
                },
                Err(e) => if self.has_room() {
                    buffer_view_write(self.desc().ty, usage) == Err::<
                        DescriptorType,
                        PersistentDescriptorSetError,
                    >(e)
                } else {
                    e == PersistentDescriptorSetError::ArrayOutOfBounds
                },
            },
    {
        proof {
            use_type_invariant(&self);
            use_type_invariant(&self.builder);
        }
        let binding = index_u32(self.builder.binding_id);
        let element = index_u32(self.array_element);
        if element >= self.desc.array_count {
            return Err(PersistentDescriptorSetError::ArrayOutOfBounds);
        }
        proof {
            lemma_room_for_one_more(self.array_element, self.desc.array_count);
        }
        let ghost noted = self.builder.writes@;
        let mut writes = self.builder.writes;
        writes.push(
            match self.desc.ty {
                DescriptorDescTy::TexelBuffer { storage, .. } => {
                    if storage {
                        if !usage.storage_texel_buffer {
                            return Err(PersistentDescriptorSetError::MissingUsage);
                        }
                        DescriptorWrite {
                            binding,
                            first_array_element: element,
                            ty: DescriptorType::StorageTexelBuffer,
                        }
                    } else {
                        if !usage.uniform_texel_buffer {
                            return Err(PersistentDescriptorSetError::MissingUsage);
                        }
                        DescriptorWrite {
                            binding,
                            first_array_element: element,
                            ty: DescriptorType::UniformTexelBuffer,
                        }
                    }
                },
                ref d => {
                    return Err(
                        PersistentDescriptorSetError::WrongDescriptorTy {
                            expected: d.ty().unwrap(),
                        },
                    );
                },
            },
        );
        assert(writes@ =~= noted + seq![writes@.last()]);

        Ok(
            PersistentDescriptorSetBuilderArray {
                builder: PersistentDescriptorSetBuilder {
                    layout: self.builder.layout,
                    set_id: self.builder.set_id,
                    binding_id: self.builder.binding_id,
                    writes: writes,
                    resources: (
                        self.builder.resources,
                        PersistentDescriptorSetBufView { view: view, descriptor_num: binding },
                    ),
                },
                desc: self.desc,
                array_element: self.array_element + 1,
            },
        )
    }

    /// Binds a sampler as the next element in the array.
    ///
    /// An error is returned if the array is full or if the descriptor
    /// doesn't take a sampler.
    pub fn add_sampler<S>(self, sampler: S) -> (r: Result<
        PersistentDescriptorSetBuilderArray<(R, PersistentDescriptorSetSampler<S>)>,
        PersistentDescriptorSetError,
    >)
        requires
            self.has_room() ==> self.desc().ty.spec_ty() is Some,
        ensures
            match r {
                Ok(array) => {
                    &&& self.has_room()
                    &&& sampler_write(self.desc().ty) is Ok
                    &&& array.follows(
                        self,
                        seq![self.next_write(DescriptorType::Sampler)],
                        (self.builder().resources(), PersistentDescriptorSetSampler { sampler }),
                    )
                },
                Err(e) => if self.has_room() {
                    sampler_write(self.desc().ty) == Err::<
                        DescriptorType,
                        PersistentDescriptorSetError,
                    >(e)
                } else {
                    e == PersistentDescriptorSetError::ArrayOutOfBounds
                },
            },
    {
        proof {
            use_type_invariant(&self);
            use_type_invariant(&self.builder);
        }
        let binding = index_u32(self.builder.binding_id);
        let element = index_u32(self.array_element);
        if element >= self.desc.array_count {
            return Err(PersistentDescriptorSetError::ArrayOutOfBounds);
        }
        proof {
            lemma_room_for_one_more(self.array_element, self.desc.array_count);
        }
        let desc = match self.builder.layout.descriptor(
            self.builder.set_id,
            self.builder.binding_id,
        ) {
            Some(d) => d,
            None => return Err(PersistentDescriptorSetError::EmptyExpected),
        };

        let ghost noted = self.builder.writes@;
        let mut writes = self.builder.writes;
        writes.push(
            match desc.ty {
                DescriptorDescTy::Sampler => DescriptorWrite {
                    binding,
                    first_array_element: element,
                    ty: DescriptorType::Sampler,
                },
                ty => {
                    return Err(
                        PersistentDescriptorSetError::WrongDescriptorTy {
                            expected: ty.ty().unwrap(),
                        },
                    );
                },
            },
        );
        assert(writes@ =~= noted + seq![writes@.last()]);

        Ok(
            PersistentDescriptorSetBuilderArray {
                builder: PersistentDescriptorSetBuilder {
                    layout: self.builder.layout,
                    set_id: self.builder.set_id,
                    binding_id: self.builder.binding_id,
                    writes: writes,
                    resources: (
                        self.builder.resources,
                        PersistentDescriptorSetSampler { sampler: sampler },
                    ),
                },
                desc: self.desc,
                array_element: self.array_element + 1,
            },
        )
    }

    /// Binds image views as the next elements in the array, one element
    /// each. `infos` describes them, one entry per view.
    ///
    /// An error is returned if the array is full or if one of the views
    /// isn't compatible with the descriptor; the error is that of the first
    /// such view.
    pub fn add_images<T>(self, image_views: Vec<T>, infos: &Vec<ImageViewInfo>) -> (r: Result<
        PersistentDescriptorSetBuilderArray<(R, PersistentDescriptorSetImgArray<T>)>,
        PersistentDescriptorSetError,
    >)
        requires
            infos@.len() == image_views@.len(),
            self.array_element() + image_views@.len() <= usize::MAX,
            self.has_room() && infos@.len() > 0 ==> self.desc().ty is Image
                || self.desc().ty is InputAttachment || self.desc().ty.spec_ty() is Some,
        ensures
            match r {
                Ok(array) => {
                    &&& self.has_room()
                    &&& no_fault(image_outcomes(self.desc().ty, infos@))
                    &&& array.follows(
                        self,
                        run_of_writes(
                            spec_index_u32(self.builder().binding_id()),
                            self.array_element(),
                            image_outcomes(self.desc().ty, infos@),
                        ),
                        (
                            self.builder().resources(),
                            PersistentDescriptorSetImgArray {
                                images: image_views,
                                descriptor_num: spec_index_u32(self.builder().binding_id()),
                            },
                        ),
                    )
                },
                Err(e) => if self.has_room() {
                    first_fault(image_outcomes(self.desc().ty, infos@), e)
                } else {
                    e == PersistentDescriptorSetError::ArrayOutOfBounds
                },
            },
    {
        proof {
            use_type_invariant(&self);
            use_type_invariant(&self.builder);
        }
        let count = image_views.len();
        let binding = index_u32(self.builder.binding_id);
        if index_u32(self.array_element) >= self.desc.array_count {
            return Err(PersistentDescriptorSetError::ArrayOutOfBounds);
        }
        let desc = match self.builder.layout.descriptor(
            self.builder.set_id,
            self.builder.binding_id,
        ) {
            Some(d) => d,
            None => return Err(PersistentDescriptorSetError::EmptyExpected),
        };

        let ghost outcomes = image_outcomes(self.desc().ty, infos@);
        let ghost noted = self.builder.writes@;
        let mut writes = self.builder.writes;
        let mut i: usize = 0;
        while i < count
            invariant
                i <= count,
                count == infos@.len(),
                self.has_room(),
                desc == self.desc(),
                outcomes == image_outcomes(self.desc().ty, infos@),
                self.array_element + count <= usize::MAX,
                infos@.len() > 0 ==> desc.ty is Image || desc.ty is InputAttachment
                    || desc.ty.spec_ty() is Some,
                binding == spec_index_u32(self.builder().binding_id()),
                forall|j: int| 0 <= j < i ==> (#[trigger] outcomes[j]) is Ok,
                writes@ =~= noted + run_of_writes(
                    binding,
                    self.array_element,
                    outcomes.take(i as int),
                ),
            decreases count - i,
        {
            let ty = match check_image(&desc.ty, &infos[i]) {
                Ok(ty) => ty,
                Err(e) => {
                    assert(outcomes[i as int] == Err::<DescriptorType, PersistentDescriptorSetError>(e));
                    return Err(e);
                },
            };
            writes.push(
                DescriptorWrite {
                    binding,
                    first_array_element: index_u32(self.array_element + i),
                    ty,
                },
            );
            i += 1;
        }
        assert(outcomes.take(count as int) =~= outcomes);

        Ok(
            PersistentDescriptorSetBuilderArray {
                builder: PersistentDescriptorSetBuilder {
                    layout: self.builder.layout,
                    set_id: self.builder.set_id,
                    binding_id: self.builder.binding_id,
                    writes: writes,
                    resources: (
                        self.builder.resources,
                        PersistentDescriptorSetImgArray {
                            images: image_views,
                            descriptor_num: binding,
                        },
                    ),
                },
                desc: self.desc,
                array_element: self.array_element + count,
            },
        )
    }

    /// Binds image views, each with the sampler, as the next elements in the
    /// array, one element each. `infos` describes the views, one entry per
    /// view.
    ///
    /// An error is returned if the array is full, if the sampler cannot
    /// sample one of the views, or if one of the views isn't compatible with
    /// the descriptor; the error is that of the first such view.
    pub fn add_sampled_images<T, S>(
        self,
        image_views: Vec<T>,
        infos: &Vec<ImageViewInfo>,
        sampler: S,
    ) -> (r: Result<
        PersistentDescriptorSetBuilderArray<
            ((R, PersistentDescriptorSetImgArray<T>), PersistentDescriptorSetSampler<S>),
        >,
        PersistentDescriptorSetError,
    >)
        requires
            infos@.len() == image_views@.len(),
            self.array_element() + image_views@.len() <= usize::MAX,
            self.has_room() ==> self.desc().ty is CombinedImageSampler
                || self.desc().ty.spec_ty() is Some,
        ensures
            match r {
                Ok(array) => {
                    &&& self.has_room()
                    &&& no_fault(sampled_image_outcomes(self.desc().ty, infos@))
                    &&& array.follows(
                        self,
                        run_of_writes(
                            spec_index_u32(self.builder().binding_id()),
                            self.array_element(),
                            sampled_image_outcomes(self.desc().ty, infos@),
                        ),
                        (
                            (
                                self.builder().resources(),
                                PersistentDescriptorSetImgArray {
                                    images: image_views,
                                    descriptor_num: spec_index_u32(self.builder().binding_id()),
                                },
                            ),
                            PersistentDescriptorSetSampler { sampler },
                        ),
                    )
                },
                Err(e) => if self.has_room() {
                    first_fault(sampled_image_outcomes(self.desc().ty, infos@), e)
                } else {
                    e == PersistentDescriptorSetError::ArrayOutOfBounds
                },
            },
    {
        proof {
            use_type_invariant(&self);
            use_type_invariant(&self.builder);
        }
        let count = image_views.len();
        let binding = index_u32(self.builder.binding_id);
        if index_u32(self.array_element) >= self.desc.array_count {
            return Err(PersistentDescriptorSetError::ArrayOutOfBounds);
        }
        let desc = match self.builder.layout.descriptor(
            self.builder.set_id,
            self.builder.binding_id,
        ) {
            Some(d) => d,
            None => return Err(PersistentDescriptorSetError::EmptyExpected),
        };

        let ghost outcomes = sampled_image_outcomes(self.desc().ty, infos@);
        let ghost noted = self.builder.writes@;
        let mut writes = self.builder.writes;
        let mut i: usize = 0;
        while i < count
            invariant
                i <= count,
                count == infos@.len(),
                self.has_room(),
                desc == self.desc(),
                outcomes == sampled_image_outcomes(self.desc().ty, infos@),
                self.array_element + count <= usize::MAX,
                desc.ty is CombinedImageSampler || desc.ty.spec_ty() is Some,
                binding == spec_index_u32(self.builder().binding_id()),
                forall|j: int| 0 <= j < i ==> (#[trigger] outcomes[j]) is Ok,
                writes@ =~= noted + run_of_writes(
                    binding,
                    self.array_element,
                    outcomes.take(i as int),
                ),
            decreases count - i,
        {
            let ty = match check_sampled_image(&desc.ty, &infos[i]) {
                Ok(ty) => ty,
                Err(e) => {
                    assert(outcomes[i as int] == Err::<DescriptorType, PersistentDescriptorSetError>(e));
                    return Err(e);
                },
            };
            writes.push(
                DescriptorWrite {
                    binding,
                    first_array_element: index_u32(self.array_element + i),
                    ty,
                },
            );
            i += 1;
        }
        assert(outcomes.take(count as int) =~= outcomes);

        Ok(
            PersistentDescriptorSetBuilderArray {
                builder: PersistentDescriptorSetBuilder {
                    layout: self.builder.layout,
                    set_id: self.builder.set_id,
                    binding_id: self.builder.binding_id,
                    writes: writes,
                    resources: (
                        (
                            self.builder.resources,
                            PersistentDescriptorSetImgArray {
                                images: image_views,
                                descriptor_num: binding,
                            },
                        ),
                        PersistentDescriptorSetSampler { sampler: sampler },
                    ),
                },
                desc: self.desc,
                array_element: self.array_element + count,
            },
        )
    }
}

/// An index below a 32-bit count, taken to 32 bits, is not the largest
/// index there is.
proof fn lemma_room_for_one_more(element: usize, count: u32)
    requires
        spec_index_u32(element) < count,
    ensures
        element < usize::MAX,
{
    let wide = element as u64;
    assert(wide as u32 == wide % 0x1_0000_0000) by (bit_vector);
    assert(usize::MAX == 0xffff_ffff || usize::MAX == 0xffff_ffff_ffff_ffff);
}

/// Whether a descriptor takes a run of resources in one go, as its whole
/// array: the descriptor is there, its array is not empty, none of the
/// resources is at fault, and they fill the array.
pub open spec fn accepted_in_one_go(
    desc: Option<DescriptorDesc>,
    outcomes: Seq<Result<DescriptorType, PersistentDescriptorSetError>>,
) -> bool {
    &&& desc is Some
    &&& desc->Some_0.array_count > 0
    &&& no_fault(outcomes)
    &&& desc->Some_0.array_count <= spec_index_u32(outcomes.len() as usize)
}

/// Whether `e` says why a descriptor does not take a run of resources in
/// one go. In this order: there is no descriptor; its array is empty; one
/// of the resources is at fault, the first such deciding; the resources do
/// not fill the array.
pub open spec fn fault_in_one_go(
    desc: Option<DescriptorDesc>,
    outcomes: Seq<Result<DescriptorType, PersistentDescriptorSetError>>,
    e: PersistentDescriptorSetError,
) -> bool {
    match desc {
        None => e == PersistentDescriptorSetError::EmptyExpected,
        Some(d) => if d.array_count == 0 {
            e == PersistentDescriptorSetError::ArrayOutOfBounds
        } else if !no_fault(outcomes) {
            first_fault(outcomes, e)
        } else {
            &&& spec_index_u32(outcomes.len() as usize) < d.array_count
            &&& e == PersistentDescriptorSetError::MissingArrayElements {
                expected: d.array_count,
                obtained: spec_index_u32(outcomes.len() as usize),
            }
        },
    }
}

impl<R> PersistentDescriptorSetBuilder<R> where R: PersistentDescriptorSetResources {
    /// The type of the descriptor that comes next, where there is one.
    pub open spec fn next_ty(&self) -> DescriptorDescTy {
        self.descriptor()->Some_0.ty
    }

    /// Whether resources can be offered for the descriptor that comes next:
    /// where there is one with a nonempty array, and it does not itself
    /// take what is offered (`takes`), its type must be known, so that the
    /// error can name it.
    pub open spec fn can_offer(&self, takes: bool) -> bool {
        self.descriptor() is Some && self.descriptor()->Some_0.array_count > 0 && !takes
            ==> self.next_ty().spec_ty() is Some
    }

    /// The builder after the descriptor that comes next took `added`.
    pub open spec fn passes_binding<Q: PersistentDescriptorSetResources>(
        &self,
        before: PersistentDescriptorSetBuilder<Q>,
        added: Seq<DescriptorWrite>,
        resources: R,
    ) -> bool {
        self.holds(
            before.layout(),
            before.set_id(),
            (before.binding_id() + 1) as usize,
            before.writes() + added,
            resources,
        )
    }

    /// Binds a buffer as the next descriptor.
    ///
    /// An error is returned if the buffer isn't compatible with the descriptor.
    pub fn add_buffer<T>(self, buffer: T, usage: BufferUsage) -> (r: Result<
        PersistentDescriptorSetBuilder<(R, PersistentDescriptorSetBuf<T>)>,
        PersistentDescriptorSetError,
    >)
        requires
            self.binding_id() < usize::MAX,
        ensures
            r is Ok <==> accepted_in_one_go(
                self.descriptor(),
                seq![buffer_write(self.next_ty(), usage)],
            ),
            r is Err ==> fault_in_one_go(
                self.descriptor(),
                seq![buffer_write(self.next_ty(), usage)],
                r->Err_0,
            ),
            r is Ok ==> r->Ok_0.passes_binding(
                self,
                run_of_writes(
                    spec_index_u32(self.binding_id()),
                    0,
                    seq![buffer_write(self.next_ty(), usage)],
                ),
                (
                    self.resources(),
                    PersistentDescriptorSetBuf {
                        buffer,
                        descriptor_num: spec_index_u32(self.binding_id()),
                    },
                ),
            ),
    {
        let ghost outcomes = seq![buffer_write(self.next_ty(), usage)];
        let array = self.enter_array()?;
        let array = match array.add_buffer(buffer, usage) {
            Ok(array) => array,
            Err(e) => {
                assert(outcomes[0] is Err ==> !no_fault(outcomes));
                return Err(e);
            },
        };
        proof {
            assert(outcomes[0] is Ok);
            assert(run_of_writes(spec_index_u32(self.binding_id()), 0, outcomes) =~= seq![
                DescriptorWrite {
                    binding: spec_index_u32(self.binding_id()),
                    first_array_element: 0,
                    ty: outcomes[0]->Ok_0,
                },
            ]);
        }
        array.leave_array()
    }

    /// Binds a buffer view as the next descriptor.
    ///
    /// An error is returned if the view isn't compatible with the descriptor.
    pub fn add_buffer_view<T>(self, view: T, usage: BufferViewUsage) -> (r: Result<
        PersistentDescriptorSetBuilder<(R, PersistentDescriptorSetBufView<T>)>,
        PersistentDescriptorSetError,
    >)
        requires
            self.binding_id() < usize::MAX,
            self.can_offer(self.next_ty() is TexelBuffer),
        ensures
            r is Ok <==> accepted_in_one_go(
                self.descriptor(),
                seq![buffer_view_write(self.next_ty(), usage)],
            ),
            r is Err ==> fault_in_one_go(
                self.descriptor(),
                seq![buffer_view_write(self.next_ty(), usage)],
                r->Err_0,
            ),
            r is Ok ==> r->Ok_0.passes_binding(
                self,
                run_of_writes(
                    spec_index_u32(self.binding_id()),
                    0,
                    seq![buffer_view_write(self.next_ty(), usage)],
                ),
                (
                    self.resources(),
                    PersistentDescriptorSetBufView {
                        view,
                        descriptor_num: spec_index_u32(self.binding_id()),
                    },
                ),
            ),
    {
        let ghost outcomes = seq![buffer_view_write(self.next_ty(), usage)];
        let array = self.enter_array()?;
        let array = match array.add_buffer_view(view, usage) {
            Ok(array) => array,
            Err(e) => {
                assert(outcomes[0] is Err ==> !no_fault(outcomes));
                return Err(e);
            },
        };
        proof {
            assert(outcomes[0] is Ok);
            assert(run_of_writes(spec_index_u32(self.binding_id()), 0, outcomes) =~= seq![
                DescriptorWrite {
                    binding: spec_index_u32(self.binding_id()),
                    first_array_element: 0,
                    ty: outcomes[0]->Ok_0,
                },
            ]);
        }
        array.leave_array()
    }

    /// Binds image views as the next descriptor, one array element each.
    /// `infos` describes them, one entry per view.
    ///
    /// An error is returned if one of the views isn't compatible with the
    /// descriptor.
    pub fn add_images<T>(self, image_views: Vec<T>, infos: &Vec<ImageViewInfo>) -> (r: Result<
        PersistentDescriptorSetBuilder<(R, PersistentDescriptorSetImgArray<T>)>,
        PersistentDescriptorSetError,
    >)
        requires
            self.binding_id() < usize::MAX,
            infos@.len() == image_views@.len(),
            infos@.len() > 0 ==> self.can_offer(
                self.next_ty() is Image || self.next_ty() is InputAttachment,
            ),
        ensures
            r is Ok <==> accepted_in_one_go(
                self.descriptor(),
                image_outcomes(self.next_ty(), infos@),
            ),
            r is Err ==> fault_in_one_go(
                self.descriptor(),
                image_outcomes(self.next_ty(), infos@),
                r->Err_0,
            ),
            r is Ok ==> r->Ok_0.passes_binding(
                self,
                run_of_writes(
                    spec_index_u32(self.binding_id()),
                    0,
                    image_outcomes(self.next_ty(), infos@),
                ),
                (
                    self.resources(),
                    PersistentDescriptorSetImgArray {
                        images: image_views,
                        descriptor_num: spec_index_u32(self.binding_id()),
                    },
                ),
            ),
    {
        let array = self.enter_array()?;
        assert(image_views.len() == image_views@.len());
        array.add_images(image_views, infos)?.leave_array()
    }

    /// Binds image views, each with the sampler, as the next descriptor, one
    /// array element each. `infos` describes the views, one entry per view.
    ///
    /// An error is returned if one of the views isn't compatible with the
    /// descriptor or with the sampler.
    pub fn add_sampled_images<T, S>(
        self,
        image_views: Vec<T>,
        infos: &Vec<ImageViewInfo>,
        sampler: S,
    ) -> (r: Result<
        PersistentDescriptorSetBuilder<
            ((R, PersistentDescriptorSetImgArray<T>), PersistentDescriptorSetSampler<S>),
        >,
        PersistentDescriptorSetError,
    >)
        requires
            self.binding_id() < usize::MAX,
            infos@.len() == image_views@.len(),
            self.can_offer(self.next_ty() is CombinedImageSampler),
        ensures
            r is Ok <==> accepted_in_one_go(
                self.descriptor(),
                sampled_image_outcomes(self.next_ty(), infos@),
            ),
            r is Err ==> fault_in_one_go(
                self.descriptor(),
                sampled_image_outcomes(self.next_ty(), infos@),
                r->Err_0,
            ),
            r is Ok ==> r->Ok_0.passes_binding(
                self,
                run_of_writes(
                    spec_index_u32(self.binding_id()),
                    0,
                    sampled_image_outcomes(self.next_ty(), infos@),
                ),
                (
                    (
                        self.resources(),
                        PersistentDescriptorSetImgArray {
                            images: image_views,
                            descriptor_num: spec_index_u32(self.binding_id()),
                        },
                    ),
                    PersistentDescriptorSetSampler { sampler },
                ),
            ),
    {
        let array = self.enter_array()?;
        assert(image_views.len() == image_views@.len());
        array.add_sampled_images(image_views, infos, sampler)?.leave_array()
    }

    /// Binds a sampler as the next descriptor.
    ///
    /// An error is returned if the descriptor doesn't take a sampler.
    pub fn add_sampler<S>(self, sampler: S) -> (r: Result<
        PersistentDescriptorSetBuilder<(R, PersistentDescriptorSetSampler<S>)>,
        PersistentDescriptorSetError,
    >)
        requires
            self.binding_id() < usize::MAX,
            self.can_offer(false),
        ensures
            r is Ok <==> accepted_in_one_go(self.descriptor(), seq![sampler_write(self.next_ty())]),
            r is Err ==> fault_in_one_go(
                self.descriptor(),
                seq![sampler_write(self.next_ty())],
                r->Err_0,
            ),
            r is Ok ==> r->Ok_0.passes_binding(
                self,
                run_of_writes(
                    spec_index_u32(self.binding_id()),
                    0,
                    seq![sampler_write(self.next_ty())],
                ),
                (self.resources(), PersistentDescriptorSetSampler { sampler }),
            ),
    {
        let ghost outcomes = seq![sampler_write(self.next_ty())];
        let array = self.enter_array()?;
        let array = match array.add_sampler(sampler) {
            Ok(array) => array,
            Err(e) => {
                assert(outcomes[0] is Err ==> !no_fault(outcomes));
                return Err(e);
            },
        };
        proof {
            assert(outcomes[0] is Ok);
            assert(run_of_writes(spec_index_u32(self.binding_id()), 0, outcomes) =~= seq![
                DescriptorWrite {
                    binding: spec_index_u32(self.binding_id()),
                    first_array_element: 0,
                    ty: outcomes[0]->Ok_0,
                },
            ]);
        }
        array.leave_array()
    }
}

} // verus!
