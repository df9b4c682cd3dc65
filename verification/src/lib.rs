//! Game data on plain bytes and plain values.
//!
//! [`map`] decodes binary map chunks: a region of a tile world with its
//! bounding volume and the sprites placed on its cells. [`vk`] keeps the
//! books of a Vulkan descriptor set while it is put together: which
//! resource goes to which binding, and which writes follow from it.

pub mod map;
pub mod vk;
