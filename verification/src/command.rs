//! Command buffers and the pools they come from: which state a buffer is
//! in, which render pass it records, and which buffer of a pool is handed
//! out next. The device's own handles are carried as numbers.

use std::collections::HashMap;
use vstd::prelude::*;

verus! {

/// Whether a command buffer is submitted by itself or called from another.
#[allow(non_camel_case_types)]
#[derive(Clone, Debug, Copy, PartialEq, Eq, Structural)]
pub enum CommandBufferType {
    PRIMARY,
    SECONDARY,
}

/// Where a command buffer stands between two resets of its pool.
#[derive(Clone, Debug, Copy, PartialEq, Eq, Structural)]
pub enum VkCommandBufferState {
    Ready,
    Recording,
    Executable,
}

/// A pool of command buffers.
pub trait CommandPool {
    /// The index of a buffer of the pool that is ready to record, or
    /// nothing if the pool has to be given a buffer first.
    fn get_command_buffer(&mut self, command_buffer_type: CommandBufferType) -> Option<usize>;

    /// Takes every buffer of the pool back.
    fn reset(&mut self);
}

/// A recorded command buffer, ready to be handed to a queue.
#[derive(Clone, Copy, Debug, PartialEq, Eq, Structural)]
pub struct VkSubmission {
    buffer: u64,
}

impl VkSubmission {
    /// The submission of the command buffer with the given handle.
    pub fn new(command_buffer: u64) -> (submission: Self)
        ensures
            submission.spec_cmd_buffer() == command_buffer,
    {
        VkSubmission { buffer: command_buffer }
    }

    /// The handle of the command buffer.
    pub closed spec fn spec_cmd_buffer(&self) -> u64 {
        self.buffer
    }

    /// The handle of the command buffer.
    pub fn get_cmd_buffer(&self) -> (handle: u64)
        ensures
            handle == self.spec_cmd_buffer(),
    {
        self.buffer
    }
}

/// A command buffer as a value.
pub struct CommandBufferView {
    pub handle: u64,
    pub kind: CommandBufferType,
    pub render_pass: Option<u64>,
    pub sub_pass: u32,
    pub state: VkCommandBufferState,
}

/// A command buffer.
#[derive(Debug)]
pub struct VkCommandBuffer {
    buffer: u64,
    kind: CommandBufferType,
    render_pass: Option<u64>,
    sub_pass: u32,
    state: VkCommandBufferState,
}

impl View for VkCommandBuffer {
    type V = CommandBufferView;

    closed spec fn view(&self) -> CommandBufferView {
        CommandBufferView {
            handle: self.buffer,
            kind: self.kind,
            render_pass: self.render_pass,
            sub_pass: self.sub_pass,
            state: self.state,
        }
    }
}

/// What is to be done to bind a pipeline.
#[derive(Clone, Copy, Debug, PartialEq, Eq, Structural)]
pub enum PipelineBinding {
    /// The cache holds the pipeline: bind it.
    Cached(u64),
    /// The cache does not hold the pipeline: build it for the given render
    /// pass and subpass, put it in the cache, and bind it.
    Build { render_pass: u64, sub_pass: u32 },
}

impl VkCommandBuffer {
    /// A command buffer on the given handle. It records from the start.
    pub fn new(buffer: u64, command_buffer_type: CommandBufferType) -> (command_buffer: Self)
        ensures
            command_buffer@ == (CommandBufferView {
                handle: buffer,
                kind: command_buffer_type,
                render_pass: None,
                sub_pass: 0,
                state: VkCommandBufferState::Recording,
            }),
    {
        VkCommandBuffer {
            buffer,
            kind: command_buffer_type,
            render_pass: None,
            sub_pass: 0u32,
            state: VkCommandBufferState::Recording,
        }
    }

    /// The buffer's handle.
    pub fn get_handle(&self) -> (handle: u64)
        ensures
            handle == self@.handle,
    {
        self.buffer
    }

    /// The buffer's state.
    pub fn state(&self) -> (state: VkCommandBufferState)
        ensures
            state == self@.state,
    {
        self.state
    }

    /// The render pass that is being recorded, if any.
    pub fn render_pass(&self) -> (render_pass: Option<u64>)
        ensures
            render_pass == self@.render_pass,
    {
        self.render_pass
    }

    /// Starts recording.
    pub fn begin(&mut self)
        ensures
            final(self)@ == (CommandBufferView { state: VkCommandBufferState::Recording, ..old(self)@ }),
    {
        self.state = VkCommandBufferState::Recording;
    }

    /// Ends recording: the buffer can be executed.
    pub fn end(&mut self)
        ensures
            final(self)@ == (CommandBufferView { state: VkCommandBufferState::Executable, ..old(self)@ }),
    {
        self.state = VkCommandBufferState::Executable;
    }

    /// Starts recording the render pass `render_pass`, at its first
    /// subpass.
    pub fn begin_render_pass(&mut self, render_pass: u64)
        ensures
            final(self)@ == (CommandBufferView {
                render_pass: Some(render_pass),
                sub_pass: 0,
                ..old(self)@
            }),
    {
        self.render_pass = Some(render_pass);
        self.sub_pass = 0;
    }

    /// Ends the render pass.
    pub fn end_render_pass(&mut self)
        ensures
            final(self)@ == (CommandBufferView { render_pass: None, ..old(self)@ }),
    {
        self.render_pass = None;
    }

    /// Looks up the pipeline with hash `hash` for the render pass that is
    /// being recorded. A pipeline can only be set inside a render pass.
    pub fn set_pipeline2(&self, caches: &VkSharedCaches, hash: u64) -> (binding: PipelineBinding)
        requires
            self@.render_pass is Some,
        ensures
            binding == if caches@.dom().contains(hash) {
                PipelineBinding::Cached(caches@[hash])
            } else {
                PipelineBinding::Build { render_pass: self@.render_pass->0, sub_pass: self@.sub_pass }
            },
    {
        match caches.get_pipeline(hash) {
            Some(pipeline) => PipelineBinding::Cached(pipeline),
            None => match self.render_pass {
                Some(render_pass) => PipelineBinding::Build { render_pass, sub_pass: self.sub_pass },
                None => PipelineBinding::Build { render_pass: 0, sub_pass: self.sub_pass },
            },
        }
    }

    /// Ends recording and hands the buffer over for submission.
    pub fn finish(&mut self) -> (submission: VkSubmission)
        ensures
            final(self)@ == (CommandBufferView { state: VkCommandBufferState::Executable, ..old(self)@ }),
            submission.spec_cmd_buffer() == old(self)@.handle,
    {
        self.end();
        VkSubmission::new(self.buffer)
    }
}

/// The pipelines that were built, by the hash of what they were built
/// from.
pub struct VkSharedCaches {
    pipelines: HashMap<u64, u64>,
}

impl View for VkSharedCaches {
    type V = Map<u64, u64>;

    closed spec fn view(&self) -> Map<u64, u64> {
        self.pipelines@
    }
}

impl VkSharedCaches {
    /// Caches that hold nothing.
    pub fn new() -> (caches: Self)
        ensures
            caches@ == Map::<u64, u64>::empty(),
    {
        VkSharedCaches { pipelines: HashMap::new() }
    }

    /// The pipeline with hash `hash`, where the cache holds one.
    pub fn get_pipeline(&self, hash: u64) -> (pipeline: Option<u64>)
        ensures
            pipeline == if self@.dom().contains(hash) {
                Some(self@[hash])
            } else {
                None
            },
    {
        broadcast use vstd::std_specs::hash::group_hash_axioms;

        match self.pipelines.get(&hash) {
            Some(pipeline) => Some(*pipeline),
            None => None,
        }
    }

    /// Puts the pipeline with hash `hash` in the cache, in place of the one
    /// that was there.
    pub fn insert_pipeline(&mut self, hash: u64, pipeline: u64)
        ensures
            final(self)@ == old(self)@.insert(hash, pipeline),
    {
        broadcast use vstd::std_specs::hash::group_hash_axioms;

        self.pipelines.insert(hash, pipeline);
    }
}

/// The command buffers of one pool.
#[derive(Debug)]
pub struct VkCommandPool {
    buffers: Vec<VkCommandBuffer>,
}

impl View for VkCommandPool {
    type V = Seq<CommandBufferView>;

    closed spec fn view(&self) -> Seq<CommandBufferView> {
        self.buffers@.map_values(|b: VkCommandBuffer| b@)
    }
}

impl VkCommandPool {
    /// A pool without buffers.
    pub fn new() -> (pool: Self)
        ensures
            pool@.len() == 0,
    {
        VkCommandPool { buffers: Vec::new() }
    }

    /// Puts a new buffer on the given handle in the pool and gives its
    /// index. The buffer records from the start.
    pub fn add_command_buffer(&mut self, buffer: u64, command_buffer_type: CommandBufferType) -> (index:
        usize)
        ensures
            index == old(self)@.len(),
            final(self)@ == old(self)@.push(
                CommandBufferView {
                    handle: buffer,
                    kind: command_buffer_type,
                    render_pass: None,
                    sub_pass: 0,
                    state: VkCommandBufferState::Recording,
                },
            ),
    {
        let ghost before = self@;
        let index = self.buffers.len();
        let command_buffer = VkCommandBuffer::new(buffer, command_buffer_type);
        self.buffers.push(command_buffer);
        proof {
            assert(self@ =~= before.push(
                CommandBufferView {
                    handle: buffer,
                    kind: command_buffer_type,
                    render_pass: None,
                    sub_pass: 0,
                    state: VkCommandBufferState::Recording,
                },
            ));
        }
        index
    }

    /// The buffer with the given index.
    pub fn buffer(&self, index: usize) -> (command_buffer: &VkCommandBuffer)
        requires
            index < self@.len(),
        ensures
            command_buffer@ == self@[index as int],
    {
        &self.buffers[index]
    }

    /// Number of buffers in the pool.
    pub fn len(&self) -> (len: usize)
        ensures
            len == self@.len(),
    {
        self.buffers.len()
    }

    /// The handles of the buffers, for the pool's release.
    pub fn handles(&self) -> (handles: Vec<u64>)
        ensures
            handles@ == self@.map_values(|b: CommandBufferView| b.handle),
    {
        let mut handles: Vec<u64> = Vec::new();
        let mut i: usize = 0;
        while i < self.buffers.len()
            invariant
                i <= self.buffers@.len(),
                handles@ == self@.take(i as int).map_values(|b: CommandBufferView| b.handle),
            decreases self.buffers@.len() - i,
        {
            handles.push(self.buffers[i].buffer);
            proof {
                assert(self@.take(i + 1).map_values(|b: CommandBufferView| b.handle) =~= self@.take(
                    i as int,
                ).map_values(|b: CommandBufferView| b.handle).push(self@[i as int].handle));
            }
            i = i + 1;
        }
        proof {
            assert(self@.take(i as int) =~= self@);
        }
        handles
    }
}

impl CommandPool for VkCommandPool {
    /// Hands out the pool's first buffer, set to record. A pool without
    /// buffers hands out nothing and is to be given one.
    fn get_command_buffer(&mut self, command_buffer_type: CommandBufferType) -> (index: Option<usize>)
        ensures
            old(self)@.len() == 0 ==> index is None && final(self)@ == old(self)@,
            old(self)@.len() > 0 ==> index == Some(0usize) && final(self)@ == old(self)@.update(
                0,
                CommandBufferView { state: VkCommandBufferState::Recording, ..old(self)@[0] },
            ),
    {
        let ghost before = self@;
        if self.buffers.len() == 0 {
            return None;
        }
        self.buffers[0].begin();
        proof {
            assert(self@ =~= before.update(
                0,
                CommandBufferView { state: VkCommandBufferState::Recording, ..before[0] },
            ));
        }
        Some(0)
    }

    /// Takes every buffer back: all are ready afterwards.
    fn reset(&mut self)
        ensures
            final(self)@ == old(self)@.map_values(
                |b: CommandBufferView| CommandBufferView { state: VkCommandBufferState::Ready, ..b },
            ),
    {
        let ghost before = self@;
        let mut i: usize = 0;
        while i < self.buffers.len()
            invariant
                i <= self.buffers@.len(),
                self@.len() == before.len(),
                forall|k: int|
                    0 <= k < i ==> self@[k] == (CommandBufferView {
                        state: VkCommandBufferState::Ready,
                        ..before[k]
                    }),
                forall|k: int| i <= k < self@.len() ==> self@[k] == before[k],
            decreases self.buffers@.len() - i,
        {
            let ghost prev = self@;
            self.buffers[i].state = VkCommandBufferState::Ready;
            proof {
                assert(self@ =~= prev.update(
                    i as int,
                    CommandBufferView { state: VkCommandBufferState::Ready, ..prev[i as int] },
                ));
            }
            i = i + 1;
        }
        proof {
            assert(self@ =~= before.map_values(
                |b: CommandBufferView| CommandBufferView { state: VkCommandBufferState::Ready, ..b },
            ));
        }
    }
}

} // verus!
