//! One frame's way to the screen, and what to do when the swapchain fails
//! on the way: recreate it once, render once more, and drop the frame if
//! that fails too. The render graph is built for one pixel format and one
//! sample count; a recreated swapchain that differs in either is fatal.
//!
//! The decisions are made here. Rendering, waiting for the device and
//! recreating the swapchain are the caller's part: each step says what to
//! do next, and the caller reports back how it went.

use crate::renderer::WindowState;
use vstd::prelude::*;

verus! {

/// Why the swapchain could not take a frame.
#[derive(Clone, Copy, Debug, PartialEq, Eq, Structural)]
pub enum SwapchainError {
    /// The surface is gone.
    SurfaceLost,
    /// The surface changed and the swapchain no longer fits it.
    OutOfDate,
    /// Anything else, such as no back buffer being ready.
    Other,
}

/// What the render graph needs to know of a swapchain.
#[derive(Clone, Copy, Debug, PartialEq, Eq, Structural)]
pub struct SwapchainInfo {
    pub width: u32,
    pub height: u32,
    pub format: u32,
    pub sample_count: u32,
}

/// How a frame ended.
#[derive(Clone, Copy, Debug, PartialEq, Eq, Structural)]
pub enum FrameOutcome {
    /// The frame is on its way to the screen.
    Presented,
    /// The frame was given up; the next one may do better.
    Dropped,
    /// The renderer cannot go on.
    Fatal,
}

/// Where a frame stands.
#[derive(Clone, Copy, Debug, PartialEq, Eq, Structural)]
pub enum FramePhase {
    /// The first attempt to render is under way.
    Rendering,
    /// The swapchain is being recreated.
    Recreating,
    /// The second attempt to render is under way.
    Retrying,
    /// The frame has ended.
    Ended(FrameOutcome),
}

/// What the caller reports back.
#[derive(Clone, Copy, Debug, PartialEq, Eq, Structural)]
pub enum FrameEvent {
    /// Rendering went through.
    RenderSucceeded,
    /// Rendering failed with `error`. `surface_changed` says whether the
    /// window has a surface other than the one of the swapchain.
    RenderFailed { error: SwapchainError, surface_changed: bool },
    /// The swapchain was recreated, and `info` describes the new one.
    SwapchainRecreated { info: SwapchainInfo },
    /// The swapchain could not be recreated.
    RecreationFailed,
}

/// What the caller is to do next.
#[derive(Clone, Copy, Debug, PartialEq, Eq, Structural)]
pub enum FrameAction {
    /// Wait for the device, then recreate the swapchain on the window's new
    /// surface at the given size.
    RecreateOnSurface { width: u32, height: u32 },
    /// Wait for the device, then recreate the swapchain on its surface at
    /// the given size.
    Recreate { width: u32, height: u32 },
    /// Take the recreated swapchain into use and render again.
    RenderAgain,
    /// The frame has ended.
    Finish(FrameOutcome),
}

/// How a frame begins.
#[derive(Clone, Copy, Debug, PartialEq, Eq, Structural)]
pub enum FrameStart {
    /// The window is minimized: sleep for a second and try again.
    Sleep,
    /// The window is gone: stop the renderer.
    Stop,
    /// Render a frame for a window of the given size.
    Render { width: u32, height: u32 },
}

/// How a frame begins for a window in `state`.
pub open spec fn frame_start(state: WindowState) -> FrameStart {
    match state {
        WindowState::Minimized => FrameStart::Sleep,
        WindowState::FullScreen { width, height } => FrameStart::Render { width, height },
        WindowState::Visible { width, height, focussed } => FrameStart::Render { width, height },
        WindowState::Exited => FrameStart::Stop,
    }
}

/// The state of a frame: its phase, the size it is rendered at, and the
/// swapchain that the render graph is built for.
#[derive(Clone, Copy, Debug, PartialEq, Eq, Structural)]
pub struct FrameState {
    pub phase: FramePhase,
    pub width: u32,
    pub height: u32,
    pub swapchain: SwapchainInfo,
}

impl FrameState {
    /// What the caller is to do after `event`.
    pub open spec fn action(self, event: FrameEvent) -> FrameAction {
        match (self.phase, event) {
            (FramePhase::Rendering, FrameEvent::RenderSucceeded) => FrameAction::Finish(
                FrameOutcome::Presented,
            ),
            (FramePhase::Rendering, FrameEvent::RenderFailed { error, surface_changed }) => {
                if error == SwapchainError::SurfaceLost && surface_changed {
                    FrameAction::RecreateOnSurface { width: self.width, height: self.height }
                } else {
                    FrameAction::Recreate { width: self.width, height: self.height }
                }
            },
            (FramePhase::Recreating, FrameEvent::RecreationFailed) => FrameAction::Finish(
                FrameOutcome::Dropped,
            ),
            (FramePhase::Recreating, FrameEvent::SwapchainRecreated { info }) => {
                if info.format == self.swapchain.format && info.sample_count
                    == self.swapchain.sample_count {
                    FrameAction::RenderAgain
                } else {
                    FrameAction::Finish(FrameOutcome::Fatal)
                }
            },
            (FramePhase::Retrying, FrameEvent::RenderSucceeded) => FrameAction::Finish(
                FrameOutcome::Presented,
            ),
            (FramePhase::Retrying, FrameEvent::RenderFailed { error, surface_changed }) => {
                FrameAction::Finish(FrameOutcome::Dropped)
            },
            _ => FrameAction::Finish(FrameOutcome::Fatal),
        }
    }

    /// The state after `event`. A report that does not fit the phase is a
    /// breach of contract and ends the frame as fatal.
    pub open spec fn after(self, event: FrameEvent) -> FrameState {
        match self.action(event) {
            FrameAction::RecreateOnSurface { width, height } => FrameState {
                phase: FramePhase::Recreating,
                ..self
            },
            FrameAction::Recreate { width, height } => FrameState {
                phase: FramePhase::Recreating,
                ..self
            },
            FrameAction::RenderAgain => FrameState {
                phase: FramePhase::Retrying,
                swapchain: event->info,
                ..self
            },
            FrameAction::Finish(outcome) => FrameState { phase: FramePhase::Ended(outcome), ..self },
        }
    }

    /// The state after the events of `events`, in order.
    pub open spec fn after_all(self, events: Seq<FrameEvent>) -> FrameState
        decreases events.len(),
    {
        if events.len() == 0 {
            self
        } else {
            self.after_all(events.drop_last()).after(events.last())
        }
    }

    /// How often the caller is asked to recreate the swapchain while the
    /// events of `events` come in.
    pub open spec fn recreations(self, events: Seq<FrameEvent>) -> nat
        decreases events.len(),
    {
        if events.len() == 0 {
            0
        } else {
            let before = self.after_all(events.drop_last());
            self.recreations(events.drop_last()) + if before.action(events.last())
                is RecreateOnSurface || before.action(events.last()) is Recreate {
                1nat
            } else {
                0nat
            }
        }
    }

    /// How often the caller is asked to render again while the events of
    /// `events` come in.
    pub open spec fn retries(self, events: Seq<FrameEvent>) -> nat
        decreases events.len(),
    {
        if events.len() == 0 {
            0
        } else {
            let before = self.after_all(events.drop_last());
            self.retries(events.drop_last()) + if before.action(events.last()) is RenderAgain {
                1nat
            } else {
                0nat
            }
        }
    }

    /// How far the frame has come: a phase is never followed by an earlier
    /// one.
    pub open spec fn progress(self) -> nat {
        match self.phase {
            FramePhase::Rendering => 0,
            FramePhase::Recreating => 1,
            FramePhase::Retrying => 2,
            FramePhase::Ended(outcome) => 3,
        }
    }
}

/// The frame that the render thread is working on.
pub struct Frame {
    state: FrameState,
}

impl View for Frame {
    type V = FrameState;

    closed spec fn view(&self) -> FrameState {
        self.state
    }
}

impl Frame {
    /// Begins a frame for a window in `window_state` on a swapchain like
    /// `swapchain`. Where the window can be drawn to, the frame is handed
    /// back with its first attempt to render under way.
    pub fn begin(window_state: WindowState, swapchain: SwapchainInfo) -> (begun: (
        FrameStart,
        Option<Frame>,
    ))
        ensures
            begun.0 == frame_start(window_state),
            begun.1 is Some <==> begun.0 is Render,
            begun.0 matches FrameStart::Render { width, height } ==> begun.1->0@ == (FrameState {
                phase: FramePhase::Rendering,
                width,
                height,
                swapchain,
            }),
    {
        match window_state {
            WindowState::Minimized => (FrameStart::Sleep, None),
            WindowState::FullScreen { width, height } => (
                FrameStart::Render { width, height },
                Some(Frame { state: FrameState { phase: FramePhase::Rendering, width, height, swapchain } }),
            ),
            WindowState::Visible { width, height, focussed: _focussed } => (
                FrameStart::Render { width, height },
                Some(Frame { state: FrameState { phase: FramePhase::Rendering, width, height, swapchain } }),
            ),
            WindowState::Exited => (FrameStart::Stop, None),
        }
    }

    /// Where the frame stands.
    pub fn phase(&self) -> (phase: FramePhase)
        ensures
            phase == self@.phase,
    {
        self.state.phase
    }

    /// The swapchain that the render graph is built for.
    pub fn swapchain(&self) -> (swapchain: SwapchainInfo)
        ensures
            swapchain == self@.swapchain,
    {
        self.state.swapchain
    }

    /// Takes the caller's report and says what to do next.
    ///
    /// A failed first attempt asks for the swapchain to be recreated: on
    /// the window's new surface if the surface was lost and the window has
    /// another, on the swapchain's own surface for any other failure, a
    /// lost surface without another one among them. A recreated swapchain
    /// of the same format and sample count is taken into use and rendered
    /// to once more; one that differs in either is fatal. A failed
    /// recreation or a failed second attempt drops the frame.
    pub fn render(&mut self, event: FrameEvent) -> (action: FrameAction)
        ensures
            action == old(self)@.action(event),
            final(self)@ == old(self)@.after(event),
    {
        let state = self.state;
        let action = match state.phase {
            FramePhase::Rendering => match event {
                FrameEvent::RenderSucceeded => FrameAction::Finish(FrameOutcome::Presented),
                FrameEvent::RenderFailed { error, surface_changed } => {
                    if error == SwapchainError::SurfaceLost && surface_changed {
                        FrameAction::RecreateOnSurface { width: state.width, height: state.height }
                    } else {
                        FrameAction::Recreate { width: state.width, height: state.height }
                    }
                },
                _ => FrameAction::Finish(FrameOutcome::Fatal),
            },
            FramePhase::Recreating => match event {
                FrameEvent::RecreationFailed => FrameAction::Finish(FrameOutcome::Dropped),
                FrameEvent::SwapchainRecreated { info } => {
                    if info.format == state.swapchain.format && info.sample_count
                        == state.swapchain.sample_count {
                        self.state.swapchain = info;
                        FrameAction::RenderAgain
                    } else {
                        FrameAction::Finish(FrameOutcome::Fatal)
                    }
                },
                _ => FrameAction::Finish(FrameOutcome::Fatal),
            },
            FramePhase::Retrying => match event {
                FrameEvent::RenderSucceeded => FrameAction::Finish(FrameOutcome::Presented),
                FrameEvent::RenderFailed { error, surface_changed } => FrameAction::Finish(
                    FrameOutcome::Dropped,
                ),
                _ => FrameAction::Finish(FrameOutcome::Fatal),
            },
            FramePhase::Ended(_outcome) => FrameAction::Finish(FrameOutcome::Fatal),
        };
        self.state.phase = match action {
            FrameAction::RecreateOnSurface { width, height } => FramePhase::Recreating,
            FrameAction::Recreate { width, height } => FramePhase::Recreating,
            FrameAction::RenderAgain => FramePhase::Retrying,
            FrameAction::Finish(outcome) => FramePhase::Ended(outcome),
        };
        action
    }
}

/// Each report moves a frame on, or leaves it ended: only the first attempt
/// can ask for a recreation, and only a recreation can ask for a second
/// attempt.
pub proof fn lemma_frame_moves_on(state: FrameState, event: FrameEvent)
    ensures
        state.after(event).progress() > state.progress() || (state.phase is Ended
            && state.after(event).phase is Ended),
        state.action(event) is RecreateOnSurface || state.action(event) is Recreate
            ==> state.phase is Rendering,
        state.action(event) is RenderAgain ==> state.phase is Recreating,
        state.after(event).swapchain.format == state.swapchain.format,
        state.after(event).swapchain.sample_count == state.swapchain.sample_count,
{
}

/// Whatever the caller reports, and in whatever order, one frame asks for
/// the swapchain to be recreated at most once and for a second attempt at
/// most once, and none of either once it has left its first attempt
/// behind. The format and the sample count that the render graph
/// is built for never change on the way.
pub proof fn law_one_recovery_per_frame(state: FrameState, events: Seq<FrameEvent>)
    ensures
        state.after_all(events).progress() >= state.progress(),
        state.recreations(events) <= if state.phase is Rendering && state.after_all(
            events,
        ).progress() > 0 {
            1nat
        } else {
            0nat
        },
        state.retries(events) <= if state.progress() <= 1 && state.after_all(events).progress() > 1 {
            1nat
        } else {
            0nat
        },
        state.after_all(events).swapchain.format == state.swapchain.format,
        state.after_all(events).swapchain.sample_count == state.swapchain.sample_count,
    decreases events.len(),
{
    if events.len() > 0 {
        law_one_recovery_per_frame(state, events.drop_last());
        lemma_frame_moves_on(state.after_all(events.drop_last()), events.last());
    }
}

/// A failed first attempt is answered with one recreation, whatever the
/// failure and whether or not the window has another surface; a recreated
/// swapchain of the format and sample count that the graph is built for is
/// answered with one second attempt, at the size of the frame. If that
/// attempt fails too, the frame is dropped, and the recreated swapchain
/// stays in use.
pub proof fn law_failure_starts_one_recovery(
    state: FrameState,
    error: SwapchainError,
    surface_changed: bool,
    info: SwapchainInfo,
)
    requires
        state.phase is Rendering,
        info.format == state.swapchain.format,
        info.sample_count == state.swapchain.sample_count,
    ensures
        ({
            let failed = FrameEvent::RenderFailed { error, surface_changed };
            let recreated = FrameEvent::SwapchainRecreated { info };
            let events = seq![failed, recreated];
            &&& state.action(failed) == if error == SwapchainError::SurfaceLost && surface_changed {
                FrameAction::RecreateOnSurface { width: state.width, height: state.height }
            } else {
                FrameAction::Recreate { width: state.width, height: state.height }
            }
            &&& state.after(failed).action(recreated) == FrameAction::RenderAgain
            &&& state.recreations(events) == 1
            &&& state.retries(events) == 1
            &&& state.after_all(events).phase is Retrying
            &&& state.after_all(events).swapchain == info
            &&& forall|again: SwapchainError, changed: bool|
                (#[trigger] state.after_all(events).after(
                    FrameEvent::RenderFailed { error: again, surface_changed: changed },
                )) == (FrameState {
                    phase: FramePhase::Ended(FrameOutcome::Dropped),
                    swapchain: info,
                    ..state
                })
        }),
{
    let failed = FrameEvent::RenderFailed { error, surface_changed };
    let recreated = FrameEvent::SwapchainRecreated { info };
    let events = seq![failed, recreated];
    let first = events.drop_last();
    assert(first =~= seq![failed]);
    assert(first.drop_last() =~= Seq::<FrameEvent>::empty());
    assert(first.last() == failed);
    assert(events.last() == recreated);
    reveal_with_fuel(FrameState::after_all, 3);
    reveal_with_fuel(FrameState::recreations, 3);
    reveal_with_fuel(FrameState::retries, 3);
    assert(state.after_all(first) == state.after(failed));
}

} // verus!
