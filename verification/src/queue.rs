//! Queues of the device.

use vstd::prelude::*;

verus! {

/// What a queue can do.
#[derive(Clone, Copy, Debug, PartialEq, Eq, Structural)]
pub enum QueueType {
    Graphics,
    Compute,
    Transfer,
}

/// Which queue of which family a queue is.
#[derive(Clone, Debug, Copy)]
pub struct VkQueueInfo {
    pub queue_family_index: usize,
    pub queue_index: usize,
    pub queue_type: QueueType,
    pub supports_presentation: bool,
}

/// A queue of the device.
pub struct VkQueue {
    info: VkQueueInfo,
    queue: u64,
}

impl VkQueue {
    /// What the queue is.
    pub closed spec fn info(&self) -> VkQueueInfo {
        self.info
    }

    /// The queue on the given handle.
    pub fn new(info: VkQueueInfo, queue: u64) -> (result: Self)
        ensures
            result.info() == info,
    {
        VkQueue { info, queue }
    }

    /// The index of the queue's family, cut to four bytes.
    pub fn get_queue_family_index(&self) -> (index: u32)
        ensures
            index == self.info().queue_family_index as u32,
            self.info().queue_family_index <= u32::MAX ==> index == self.info().queue_family_index,
    {
        #[verifier::truncate]
        (self.info.queue_family_index as u32)
    }

    /// What the queue can do.
    pub fn get_queue_type(&self) -> (queue_type: QueueType)
        ensures
            queue_type == self.info().queue_type,
    {
        self.info.queue_type
    }

    /// Whether the queue can present to a surface.
    pub fn supports_presentation(&self) -> (supported: bool)
        ensures
            supported == self.info().supports_presentation,
    {
        self.info.supports_presentation
    }
}

} // verus!
