//! Bookkeeping for Vulkan descriptor sets: what a pipeline layout expects of
//! each binding, and the checks that a resource passes before it is bound.
//!
//! Nothing here talks to a device. Layouts and resources come in as plain
//! descriptions; what comes out is the list of writes to perform.

pub mod descriptor;
pub mod persistent;
