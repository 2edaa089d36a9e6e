//! What the engine asks of the platform it runs on.

use vstd::prelude::*;

verus! {

/// What the platform's event loop asks of the engine.
#[derive(Debug, PartialEq, Eq, Structural)]
pub enum PlatformEvent {
    Continue,
    Quit,
}

/// The graphics interfaces that a platform may offer.
#[derive(Clone, Copy, Debug, PartialEq, Eq, Structural)]
pub enum GraphicsApi {
    OpenGLES,
    Vulkan,
}

/// A platform: it owns the window and hands out the graphics instance.
pub trait Platform: Sized {
    /// The graphics instance of the platform.
    type Instance;

    /// The platform's window.
    type Window: Window;

    /// The window.
    fn window(&mut self) -> &Self::Window;

    /// Handles what the platform's event loop has gathered.
    fn handle_events(&mut self) -> PlatformEvent;

    /// Brings up graphics; the error says in words why it could not.
    fn create_graphics(&self, debug_layers: bool) -> Result<Self::Instance, String>;
}

/// A window of a platform.
pub trait Window {
    /// The graphics instance that the window's surfaces are made on.
    type Instance;

    /// What a window is drawn to.
    type Surface;

    /// A surface for the window on `graphics_instance`.
    fn create_surface(&self, graphics_instance: &Self::Instance) -> Self::Surface;
}

} // verus!
