//! The device objects that a command-buffer recording refers to. A tracker
//! keeps a reference to each of them until the recording's fence has
//! signalled, so that none is destroyed while the device may still use it.

use vstd::prelude::*;

verus! {

/// The kinds of device objects that a recording refers to.
#[derive(Clone, Copy, Debug, PartialEq, Eq, Structural)]
pub enum ResourceKind {
    Semaphore,
    Fence,
    Buffer,
    Texture,
    TextureView,
    RenderPass,
    FrameBuffer,
    Sampler,
    Pipeline,
}

/// What a tracker holds: for each kind, the handles in the order they were
/// tracked. A handle that is tracked twice is held twice.
pub struct TrackersView {
    pub semaphores: Seq<u64>,
    pub fences: Seq<u64>,
    pub buffers: Seq<u64>,
    pub textures: Seq<u64>,
    pub texture_views: Seq<u64>,
    pub render_passes: Seq<u64>,
    pub frame_buffers: Seq<u64>,
    pub samplers: Seq<u64>,
    pub pipelines: Seq<u64>,
}

impl TrackersView {
    /// The tracker that holds nothing.
    pub open spec fn empty() -> TrackersView {
        TrackersView {
            semaphores: Seq::empty(),
            fences: Seq::empty(),
            buffers: Seq::empty(),
            textures: Seq::empty(),
            texture_views: Seq::empty(),
            render_passes: Seq::empty(),
            frame_buffers: Seq::empty(),
            samplers: Seq::empty(),
            pipelines: Seq::empty(),
        }
    }

    /// The handles held of one kind.
    pub open spec fn of(self, kind: ResourceKind) -> Seq<u64> {
        match kind {
            ResourceKind::Semaphore => self.semaphores,
            ResourceKind::Fence => self.fences,
            ResourceKind::Buffer => self.buffers,
            ResourceKind::Texture => self.textures,
            ResourceKind::TextureView => self.texture_views,
            ResourceKind::RenderPass => self.render_passes,
            ResourceKind::FrameBuffer => self.frame_buffers,
            ResourceKind::Sampler => self.samplers,
            ResourceKind::Pipeline => self.pipelines,
        }
    }

    /// Whether the object `handle` of `kind` is held.
    pub open spec fn holds(self, kind: ResourceKind, handle: u64) -> bool {
        self.of(kind).contains(handle)
    }

    /// Number of references held, over all kinds.
    pub open spec fn count(self) -> nat {
        self.semaphores.len() + self.fences.len() + self.buffers.len() + self.textures.len()
            + self.texture_views.len() + self.render_passes.len() + self.frame_buffers.len()
            + self.samplers.len() + self.pipelines.len()
    }

    /// The tracker after one more reference to `handle` of `kind`.
    pub open spec fn with(self, kind: ResourceKind, handle: u64) -> TrackersView {
        match kind {
            ResourceKind::Semaphore => TrackersView {
                semaphores: self.semaphores.push(handle),
                ..self
            },
            ResourceKind::Fence => TrackersView { fences: self.fences.push(handle), ..self },
            ResourceKind::Buffer => TrackersView { buffers: self.buffers.push(handle), ..self },
            ResourceKind::Texture => TrackersView { textures: self.textures.push(handle), ..self },
            ResourceKind::TextureView => TrackersView {
                texture_views: self.texture_views.push(handle),
                ..self
            },
            ResourceKind::RenderPass => TrackersView {
                render_passes: self.render_passes.push(handle),
                ..self
            },
            ResourceKind::FrameBuffer => TrackersView {
                frame_buffers: self.frame_buffers.push(handle),
                ..self
            },
            ResourceKind::Sampler => TrackersView { samplers: self.samplers.push(handle), ..self },
            ResourceKind::Pipeline => TrackersView {
                pipelines: self.pipelines.push(handle),
                ..self
            },
        }
    }
}

/// The references of one command-buffer recording.
pub struct VkLifetimeTrackers {
    semaphores: Vec<u64>,
    fences: Vec<u64>,
    buffers: Vec<u64>,
    textures: Vec<u64>,
    texture_views: Vec<u64>,
    render_passes: Vec<u64>,
    frame_buffers: Vec<u64>,
    samplers: Vec<u64>,
    pipelines: Vec<u64>,
}

impl View for VkLifetimeTrackers {
    type V = TrackersView;

    closed spec fn view(&self) -> TrackersView {
        TrackersView {
            semaphores: self.semaphores@,
            fences: self.fences@,
            buffers: self.buffers@,
            textures: self.textures@,
            texture_views: self.texture_views@,
            render_passes: self.render_passes@,
            frame_buffers: self.frame_buffers@,
            samplers: self.samplers@,
            pipelines: self.pipelines@,
        }
    }
}

impl VkLifetimeTrackers {
    /// A tracker that holds nothing.
    pub fn new() -> (trackers: Self)
        ensures
            trackers@ == TrackersView::empty(),
    {
        VkLifetimeTrackers {
            semaphores: Vec::new(),
            fences: Vec::new(),
            buffers: Vec::new(),
            textures: Vec::new(),
            texture_views: Vec::new(),
            render_passes: Vec::new(),
            frame_buffers: Vec::new(),
            samplers: Vec::new(),
            pipelines: Vec::new(),
        }
    }

    /// Lets go of every reference. The storage is kept for the next
    /// recording.
    pub fn reset(&mut self)
        ensures
            final(self)@ == TrackersView::empty(),
    {
        self.semaphores.clear();
        self.fences.clear();
        self.buffers.clear();
        self.textures.clear();
        self.texture_views.clear();
        self.render_passes.clear();
        self.frame_buffers.clear();
        self.samplers.clear();
        self.pipelines.clear();
    }

    /// Holds a reference to a semaphore.
    pub fn track_semaphore(&mut self, semaphore: u64)
        ensures
            final(self)@ == old(self)@.with(ResourceKind::Semaphore, semaphore),
    {
        self.semaphores.push(semaphore);
    }

    /// Holds a reference to a fence.
    pub fn track_fence(&mut self, fence: u64)
        ensures
            final(self)@ == old(self)@.with(ResourceKind::Fence, fence),
    {
        self.fences.push(fence);
    }

    /// Holds a reference to a buffer slice.
    pub fn track_buffer(&mut self, buffer: u64)
        ensures
            final(self)@ == old(self)@.with(ResourceKind::Buffer, buffer),
    {
        self.buffers.push(buffer);
    }

    /// Holds a reference to a texture.
    pub fn track_texture(&mut self, texture: u64)
        ensures
            final(self)@ == old(self)@.with(ResourceKind::Texture, texture),
    {
        self.textures.push(texture);
    }

    /// Holds a reference to a render pass.
    pub fn track_render_pass(&mut self, render_pass: u64)
        ensures
            final(self)@ == old(self)@.with(ResourceKind::RenderPass, render_pass),
    {
        self.render_passes.push(render_pass);
    }

    /// Holds a reference to a frame buffer.
    pub fn track_frame_buffer(&mut self, frame_buffer: u64)
        ensures
            final(self)@ == old(self)@.with(ResourceKind::FrameBuffer, frame_buffer),
    {
        self.frame_buffers.push(frame_buffer);
    }

    /// Holds a reference to a texture view.
    pub fn track_texture_view(&mut self, texture_view: u64)
        ensures
            final(self)@ == old(self)@.with(ResourceKind::TextureView, texture_view),
    {
        self.texture_views.push(texture_view);
    }

    /// Holds a reference to a sampler.
    pub fn track_sampler(&mut self, sampler: u64)
        ensures
            final(self)@ == old(self)@.with(ResourceKind::Sampler, sampler),
    {
        self.samplers.push(sampler);
    }

    /// Holds a reference to a pipeline.
    pub fn track_pipeline(&mut self, pipeline: u64)
        ensures
            final(self)@ == old(self)@.with(ResourceKind::Pipeline, pipeline),
    {
        self.pipelines.push(pipeline);
    }

    /// Whether no reference is held.
    pub fn is_empty(&self) -> (empty: bool)
        ensures
            empty == (self@.count() == 0),
            empty == (self@ == TrackersView::empty()),
    {
        let empty = self.texture_views.is_empty() && self.semaphores.is_empty()
            && self.fences.is_empty() && self.buffers.is_empty() && self.textures.is_empty()
            && self.render_passes.is_empty() && self.frame_buffers.is_empty()
            && self.samplers.is_empty() && self.pipelines.is_empty();
        proof {
            if empty {
                assert(self@.semaphores =~= Seq::empty());
                assert(self@.fences =~= Seq::empty());
                assert(self@.buffers =~= Seq::empty());
                assert(self@.textures =~= Seq::empty());
                assert(self@.texture_views =~= Seq::empty());
                assert(self@.render_passes =~= Seq::empty());
                assert(self@.frame_buffers =~= Seq::empty());
                assert(self@.samplers =~= Seq::empty());
                assert(self@.pipelines =~= Seq::empty());
            }
        }
        empty
    }

    /// Whether the object `handle` of `kind` is held.
    pub fn is_tracked(&self, kind: ResourceKind, handle: u64) -> (held: bool)
        ensures
            held == self@.holds(kind, handle),
    {
        let list = match kind {
            ResourceKind::Semaphore => &self.semaphores,
            ResourceKind::Fence => &self.fences,
            ResourceKind::Buffer => &self.buffers,
            ResourceKind::Texture => &self.textures,
            ResourceKind::TextureView => &self.texture_views,
            ResourceKind::RenderPass => &self.render_passes,
            ResourceKind::FrameBuffer => &self.frame_buffers,
            ResourceKind::Sampler => &self.samplers,
            ResourceKind::Pipeline => &self.pipelines,
        };
        let mut i: usize = 0;
        while i < list.len()
            invariant
                i <= list@.len(),
                list@ == self@.of(kind),
                forall|k: int| 0 <= k < i ==> list@[k] != handle,
            decreases list@.len() - i,
        {
            if list[i] == handle {
                return true;
            }
            i = i + 1;
        }
        false
    }
}

} // verus!
