//! The Vulkan backend's name.

use vstd::prelude::*;

verus! {

/// Names the backend that the graphics types in this crate belong to.
#[derive(Copy, Clone, Debug, Eq, Hash, PartialEq)]
pub enum VkBackend {
    Vulkan,
}

} // verus!
