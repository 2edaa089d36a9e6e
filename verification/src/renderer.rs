//! The renderer as the simulation thread sees it: it builds the messages
//! for the render thread, counts the frames that wait to be rendered, and
//! carries the window's state and the flag that stops both threads.

use crate::drawable::Matrix4;
use crate::renderer_command::RendererCommand;
use vstd::prelude::*;

verus! {

/// What the window is doing.
#[derive(Clone, Copy, Debug, PartialEq, Eq)]
pub enum WindowState {
    Minimized,
    FullScreen { width: u32, height: u32 },
    Visible { width: u32, height: u32, focussed: bool },
    Exited,
}

/// The simulation may run this many frames ahead of the render thread
/// before it has to wait.
pub const SATURATION_THRESHOLD: usize = 1;

/// Something that happens to the count of frames that wait.
pub enum QueueEvent {
    /// The simulation thread ended a frame.
    FrameSent,
    /// The render thread took the end of a frame in.
    FrameDrained,
}

/// The count of waiting frames after `events`, starting from `queued`. It
/// goes round at the ends of its range, as the counter does.
pub open spec fn queued_after(queued: usize, events: Seq<QueueEvent>) -> usize
    decreases events.len(),
{
    if events.len() == 0 {
        queued
    } else {
        let before = queued_after(queued, events.drop_last());
        match events.last() {
            QueueEvent::FrameSent => if before == usize::MAX {
                0usize
            } else {
                (before + 1) as usize
            },
            QueueEvent::FrameDrained => if before == 0 {
                usize::MAX
            } else {
                (before - 1) as usize
            },
        }
    }
}

/// How many frames `events` sends.
pub open spec fn sent(events: Seq<QueueEvent>) -> nat
    decreases events.len(),
{
    if events.len() == 0 {
        0
    } else {
        sent(events.drop_last()) + if events.last() is FrameSent {
            1nat
        } else {
            0nat
        }
    }
}

/// How many frames `events` drains.
pub open spec fn drained(events: Seq<QueueEvent>) -> nat
    decreases events.len(),
{
    if events.len() == 0 {
        0
    } else {
        drained(events.drop_last()) + if events.last() is FrameDrained {
            1nat
        } else {
            0nat
        }
    }
}

/// The dimensions of the window in `state`, or zero by zero where it has
/// none.
pub open spec fn window_size(state: WindowState) -> (u32, u32) {
    match state {
        WindowState::Minimized => (0, 0),
        WindowState::Visible { width, height, focussed } => (width, height),
        WindowState::FullScreen { width, height } => (width, height),
        WindowState::Exited => (0, 0),
    }
}

/// The renderer's shared state.
pub struct Renderer {
    window_state: WindowState,
    queued_frames_counter: usize,
    is_running: bool,
}

impl Renderer {
    /// The state of the window as last set.
    pub closed spec fn spec_window_state(&self) -> WindowState {
        self.window_state
    }

    /// The number of frames that were ended and not yet taken in.
    pub closed spec fn queued(&self) -> usize {
        self.queued_frames_counter
    }

    /// Whether the renderer has not been stopped.
    pub closed spec fn running(&self) -> bool {
        self.is_running
    }

    /// A running renderer for a window in `window_state`, with no frame
    /// waiting.
    pub fn new(window_state: WindowState) -> (renderer: Self)
        ensures
            renderer.spec_window_state() == window_state,
            renderer.queued() == 0,
            renderer.running(),
    {
        Renderer { window_state, queued_frames_counter: 0, is_running: true }
    }

    /// The window's width and height, zero by zero for a window that is
    /// minimized or gone.
    pub fn window_dimensions(&self) -> (size: (u32, u32))
        ensures
            size == window_size(self.spec_window_state()),
    {
        match self.window_state {
            WindowState::Minimized => (0, 0),
            WindowState::Visible { width, height, focussed: _focussed } => (width, height),
            WindowState::FullScreen { width, height } => (width, height),
            WindowState::Exited => (0, 0),
        }
    }

    /// The two numbers whose ratio is the ratio of the window's width to its
    /// height: the width, and the height or one where the window has none.
    pub fn aspect_ratio(&self) -> (ratio: (u32, u32))
        ensures
            ratio.0 == window_size(self.spec_window_state()).0,
            ratio.1 == if window_size(self.spec_window_state()).1 >= 1 {
                window_size(self.spec_window_state()).1
            } else {
                1
            },
    {
        let (width, height) = self.window_dimensions();
        if height >= 1 {
            (width, height)
        } else {
            (width, 1)
        }
    }

    /// Notes a new state of the window.
    pub fn set_window_state(&mut self, window_state: WindowState)
        ensures
            final(self).spec_window_state() == window_state,
            final(self).queued() == old(self).queued(),
            final(self).running() == old(self).running(),
    {
        self.window_state = window_state;
    }

    /// The state of the window as last set.
    pub fn window_state(&self) -> (state: WindowState)
        ensures
            state == self.spec_window_state(),
    {
        self.window_state
    }

    /// Takes one frame off the count of waiting frames and gives the count
    /// as it was. The render thread calls this when it has taken the end
    /// of a frame in.
    pub fn dec_queued_frames_counter(&mut self) -> (before: usize)
        ensures
            before == old(self).queued(),
            final(self).queued() == queued_after(old(self).queued(), seq![QueueEvent::FrameDrained]),
            final(self).running() == old(self).running(),
            final(self).spec_window_state() == old(self).spec_window_state(),
    {
        let before = self.queued_frames_counter;
        self.queued_frames_counter = before.wrapping_sub(1);
        proof {
            lemma_queued_after_one(before, QueueEvent::FrameDrained);
        }
        before
    }

    /// Stops the renderer. It stays stopped.
    pub fn stop(&mut self)
        ensures
            !final(self).running(),
            final(self).queued() == old(self).queued(),
            final(self).spec_window_state() == old(self).spec_window_state(),
    {
        self.is_running = false;
    }

    /// The message that gives `entity` a drawable.
    pub fn register_static_renderable(
        &self,
        entity: u64,
        transform: Matrix4,
        model_path: String,
        receive_shadows: bool,
        cast_shadows: bool,
        can_move: bool,
    ) -> (command: RendererCommand)
        ensures
            command == (RendererCommand::RegisterStatic {
                entity,
                transform,
                model_path,
                receive_shadows,
                cast_shadows,
                can_move,
            }),
    {
        RendererCommand::RegisterStatic {
            entity,
            transform,
            model_path,
            receive_shadows,
            cast_shadows,
            can_move,
        }
    }

    /// The message that takes the drawable of `entity` away.
    pub fn unregister_static_renderable(&self, entity: u64) -> (command: RendererCommand)
        ensures
            command == RendererCommand::UnregisterStatic(entity),
    {
        RendererCommand::UnregisterStatic(entity)
    }

    /// The message that gives `entity` a light.
    pub fn register_point_light(&self, entity: u64, transform: Matrix4, intensity: u32) -> (command:
        RendererCommand)
        ensures
            command == (RendererCommand::RegisterPointLight { entity, transform, intensity }),
    {
        RendererCommand::RegisterPointLight { entity, transform, intensity }
    }

    /// The message that takes the light of `entity` away.
    pub fn unregister_point_light(&self, entity: u64) -> (command: RendererCommand)
        ensures
            command == RendererCommand::UnregisterPointLight(entity),
    {
        RendererCommand::UnregisterPointLight(entity)
    }

    /// The message that moves the camera.
    pub fn update_camera_transform(&self, camera_transform_mat: Matrix4, fov: u32) -> (command:
        RendererCommand)
        ensures
            command == (RendererCommand::UpdateCameraTransform { camera_transform_mat, fov }),
    {
        RendererCommand::UpdateCameraTransform { camera_transform_mat, fov }
    }

    /// The message that moves the drawable of `entity`.
    pub fn update_transform(&self, entity: u64, transform: Matrix4) -> (command: RendererCommand)
        ensures
            command == (RendererCommand::UpdateTransform { entity, transform_mat: transform }),
    {
        RendererCommand::UpdateTransform { entity, transform_mat: transform }
    }

    /// Ends the frame: one more frame waits, and the message that tells the
    /// render thread so is handed back to be sent.
    pub fn end_frame(&mut self) -> (command: RendererCommand)
        ensures
            command == RendererCommand::EndFrame,
            final(self).queued() == queued_after(old(self).queued(), seq![QueueEvent::FrameSent]),
            final(self).running() == old(self).running(),
            final(self).spec_window_state() == old(self).spec_window_state(),
    {
        proof {
            lemma_queued_after_one(self.queued_frames_counter, QueueEvent::FrameSent);
        }
        self.queued_frames_counter = self.queued_frames_counter.wrapping_add(1);
        RendererCommand::EndFrame
    }

    /// Whether the simulation has to wait: more frames wait than the
    /// threshold allows.
    pub fn is_saturated(&self) -> (saturated: bool)
        ensures
            saturated == (self.queued() > SATURATION_THRESHOLD),
    {
        self.queued_frames_counter > SATURATION_THRESHOLD
    }

    /// Whether the renderer has not been stopped.
    pub fn is_running(&self) -> (running: bool)
        ensures
            running == self.running(),
    {
        self.is_running
    }
}

/// What one event does to the count.
pub proof fn lemma_queued_after_one(queued: usize, event: QueueEvent)
    ensures
        queued_after(queued, seq![event]) == match event {
            QueueEvent::FrameSent => if queued == usize::MAX {
                0usize
            } else {
                (queued + 1) as usize
            },
            QueueEvent::FrameDrained => if queued == 0 {
                usize::MAX
            } else {
                (queued - 1) as usize
            },
        },
{
    let one = seq![event];
    assert(one.drop_last() =~= Seq::<QueueEvent>::empty());
    assert(one.last() == event);
    assert(queued_after(queued, one.drop_last()) == queued);
}

/// As long as the render thread drains no frame that was not sent, and the
/// count stays in range, the count of waiting frames is the number of
/// frames sent less the number drained. So the simulation is held back
/// exactly while more frames than the threshold were sent and not yet
/// drained: once it is, it stays so until enough frames are drained.
pub proof fn law_saturated_until_drained(queued: usize, events: Seq<QueueEvent>)
    requires
        forall|n: int|
            0 <= n <= events.len() ==> 0 <= queued + sent(#[trigger] events.take(n)) - drained(
                events.take(n),
            ) <= usize::MAX,
    ensures
        queued_after(queued, events) == queued + sent(events) - drained(events),
        (queued_after(queued, events) > SATURATION_THRESHOLD) == (queued + sent(events) - drained(
            events,
        ) > SATURATION_THRESHOLD),
    decreases events.len(),
{
    assert(events.take(events.len() as int) =~= events);
    if events.len() > 0 {
        let shorter = events.drop_last();
        assert forall|n: int| 0 <= n <= shorter.len() implies 0 <= queued + sent(
            #[trigger] shorter.take(n),
        ) - drained(shorter.take(n)) <= usize::MAX by {
            assert(shorter.take(n) =~= events.take(n));
        }
        law_saturated_until_drained(queued, shorter);
    }
}

} // verus!
