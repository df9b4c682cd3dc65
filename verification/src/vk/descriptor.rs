//! Descriptions: of the descriptors that a pipeline layout declares, and of
//! the resources offered for them.

use vstd::prelude::*;

verus! {

/// A texel format, by its Vulkan code.
#[derive(Debug, Clone, Copy, PartialEq, Eq, Structural)]
pub struct Format {
    pub code: u32,
}

/// What kind of resource a descriptor takes.
#[derive(Debug, Clone, Copy, PartialEq, Eq, Structural)]
pub enum DescriptorType {
    Sampler,
    CombinedImageSampler,
    SampledImage,
    StorageImage,
    UniformTexelBuffer,
    StorageTexelBuffer,
    UniformBuffer,
    StorageBuffer,
    UniformBufferDynamic,
    StorageBufferDynamic,
    InputAttachment,
}

/// The kind of an image: how many dimensions it has, or that it is a cube.
#[derive(Debug, Clone, Copy, PartialEq, Eq, Structural)]
pub enum DescriptorImageDescDimensions {
    OneDimensional,
    TwoDimensional,
    ThreeDimensional,
    Cube,
}

/// Whether a descriptor takes a plain image or an array of layers.
#[derive(Debug, Clone, Copy, PartialEq, Eq, Structural)]
pub enum DescriptorImageDescArray {
    NonArrayed,
    Arrayed { max_layers: Option<u32> },
}

/// What a descriptor that holds an image expects of it.
#[derive(Debug, Clone, Copy, PartialEq, Eq, Structural)]
pub struct DescriptorImageDesc {
    /// The shader samples the image; otherwise it uses it as storage.
    pub sampled: bool,
    pub dimensions: DescriptorImageDescDimensions,
    /// The one format accepted, where the layout names one.
    pub format: Option<Format>,
    pub multisampled: bool,
    pub array_layers: DescriptorImageDescArray,
}

/// What a descriptor that holds a buffer expects of it.
#[derive(Debug, Clone, Copy, PartialEq, Eq, Structural)]
pub struct DescriptorBufferDesc {
    /// Whether the buffer is bound with a dynamic offset, where known.
    pub dynamic: Option<bool>,
    /// A storage buffer; otherwise a uniform buffer.
    pub storage: bool,
}

/// The content of each array element of a descriptor.
#[derive(Debug, Clone, Copy, PartialEq, Eq, Structural)]
pub enum DescriptorDescTy {
    Sampler,
    CombinedImageSampler(DescriptorImageDesc),
    Image(DescriptorImageDesc),
    TexelBuffer { storage: bool, format: Option<Format> },
    InputAttachment { multisampled: bool, array_layers: DescriptorImageDescArray },
    Buffer(DescriptorBufferDesc),
}

impl DescriptorDescTy {
    /// The kind of resource that the descriptor takes; `None` for a buffer
    /// of which it is not known whether it is dynamic.
    pub open spec fn spec_ty(&self) -> Option<DescriptorType> {
        match *self {
            DescriptorDescTy::Sampler => Some(DescriptorType::Sampler),
            DescriptorDescTy::CombinedImageSampler(_) => Some(DescriptorType::CombinedImageSampler),
            DescriptorDescTy::Image(desc) => Some(
                if desc.sampled {
                    DescriptorType::SampledImage
                } else {
                    DescriptorType::StorageImage
                },
            ),
            DescriptorDescTy::InputAttachment { .. } => Some(DescriptorType::InputAttachment),
            DescriptorDescTy::Buffer(desc) => match desc.dynamic {
                None => None,
                Some(dynamic) => Some(
                    if desc.storage {
                        if dynamic {
                            DescriptorType::StorageBufferDynamic
                        } else {
                            DescriptorType::StorageBuffer
                        }
                    } else {
                        if dynamic {
                            DescriptorType::UniformBufferDynamic
                        } else {
                            DescriptorType::UniformBuffer
                        }
                    },
                ),
            },
            DescriptorDescTy::TexelBuffer { storage, .. } => Some(
                if storage {
                    DescriptorType::StorageTexelBuffer
                } else {
                    DescriptorType::UniformTexelBuffer
                },
            ),
        }
    }

    /// The kind of resource that the descriptor takes; `None` where there
    /// is not enough to tell.
    pub fn ty(&self) -> (ty: Option<DescriptorType>)
        ensures
            ty == self.spec_ty(),
    {
        Some(
            match *self {
                DescriptorDescTy::Sampler => DescriptorType::Sampler,
                DescriptorDescTy::CombinedImageSampler(_) => DescriptorType::CombinedImageSampler,
                DescriptorDescTy::Image(desc) => {
                    if desc.sampled {
                        DescriptorType::SampledImage
                    } else {
                        DescriptorType::StorageImage
                    }
                },
                DescriptorDescTy::InputAttachment { .. } => DescriptorType::InputAttachment,
                DescriptorDescTy::Buffer(desc) => {
                    let dynamic = match desc.dynamic {
                        Some(d) => d,
                        None => return None,
                    };
                    match (desc.storage, dynamic) {
                        (false, false) => DescriptorType::UniformBuffer,
                        (true, false) => DescriptorType::StorageBuffer,
                        (false, true) => DescriptorType::UniformBufferDynamic,
                        (true, true) => DescriptorType::StorageBufferDynamic,
                    }
                },
                DescriptorDescTy::TexelBuffer { storage, .. } => {
                    if storage {
                        DescriptorType::StorageTexelBuffer
                    } else {
                        DescriptorType::UniformTexelBuffer
                    }
                },
            },
        )
    }
}

/// One descriptor of a set: what each of its array elements holds, and how
/// many there are.
#[derive(Debug, Clone, Copy, PartialEq, Eq, Structural)]
pub struct DescriptorDesc {
    pub ty: DescriptorDescTy,
    pub array_count: u32,
}

/// The descriptors that a pipeline layout declares: for each set, one entry
/// per binding, `None` where the binding is empty.
pub struct PipelineLayoutDesc {
    pub sets: Vec<Vec<Option<DescriptorDesc>>>,
}

impl PipelineLayoutDesc {
    /// The descriptor at `binding` of `set`; `None` where either is out of
    /// range or the binding is empty.
    pub open spec fn spec_descriptor(&self, set: usize, binding: usize) -> Option<DescriptorDesc> {
        if set < self.sets@.len() && binding < self.sets@[set as int]@.len() {
            self.sets@[set as int]@[binding as int]
        } else {
            None
        }
    }

    /// The number of bindings of `set`; `None` where `set` is out of range.
    pub open spec fn spec_num_bindings_in_set(&self, set: usize) -> Option<usize> {
        if set < self.sets@.len() {
            Some(self.sets@[set as int].len())
        } else {
            None
        }
    }

    /// The number of sets, empty ones included.
    pub fn num_sets(&self) -> (n: usize)
        ensures
            n == self.sets@.len(),
    {
        self.sets.len()
    }

    /// The number of bindings of `set`, empty ones included; `None` where
    /// `set` is out of range.
    pub fn num_bindings_in_set(&self, set: usize) -> (n: Option<usize>)
        ensures
            n == self.spec_num_bindings_in_set(set),
    {
        if set < self.sets.len() {
            Some(self.sets[set].len())
        } else {
            None
        }
    }

    /// The descriptor at `binding` of `set`; `None` where either is out of
    /// range or the binding is empty.
    pub fn descriptor(&self, set: usize, binding: usize) -> (desc: Option<DescriptorDesc>)
        ensures
            desc == self.spec_descriptor(set, binding),
    {
        if set < self.sets.len() && binding < self.sets[set].len() {
            self.sets[set][binding]
        } else {
            None
        }
    }
}

/// What a buffer was created for.
#[derive(Debug, Clone, Copy, PartialEq, Eq, Structural)]
pub struct BufferUsage {
    pub storage_buffer: bool,
    pub uniform_buffer: bool,
}

/// What a buffer view can be bound as.
#[derive(Debug, Clone, Copy, PartialEq, Eq, Structural)]
pub struct BufferViewUsage {
    pub storage_texel_buffer: bool,
    pub uniform_texel_buffer: bool,
}

/// An image view, as far as binding it depends on it.
#[derive(Debug, Clone, Copy, PartialEq, Eq, Structural)]
pub struct ImageViewInfo {
    /// The image was created to be sampled.
    pub usage_sampled: bool,
    /// The image was created to be used as storage.
    pub usage_storage: bool,
    /// The image was created to be used as an input attachment.
    pub usage_input_attachment: bool,
    pub dimensions: DescriptorImageDescDimensions,
    /// The number of array layers of the view; 1 for a plain image.
    pub array_layers: u32,
    pub format: Format,
    /// The number of samples per texel; 1 for a single-sampled image.
    pub samples: u32,
    /// The sampler that the view is to be combined with can sample it. Not
    /// looked at where the view is bound without a sampler.
    pub can_be_sampled: bool,
}

} // verus!
