//! What the simulation thread tells the render thread.

use crate::drawable::Matrix4;
use vstd::prelude::*;

verus! {

/// A message to the render thread. Messages are consumed once, in the order
/// in which they were sent.
#[derive(Debug)]
pub enum RendererCommand {
    /// Gives `entity` a drawable: the model at `model_path`, at `transform`.
    RegisterStatic {
        entity: u64,
        transform: Matrix4,
        model_path: String,
        receive_shadows: bool,
        cast_shadows: bool,
        can_move: bool,
    },
    /// Takes the drawable of the entity away.
    UnregisterStatic(u64),
    /// Gives `entity` a light where `transform` puts the origin.
    RegisterPointLight { entity: u64, transform: Matrix4, intensity: u32 },
    /// Takes the light of the entity away.
    UnregisterPointLight(u64),
    /// Moves the camera.
    UpdateCameraTransform { camera_transform_mat: Matrix4, fov: u32 },
    /// Moves the drawable of `entity`.
    UpdateTransform { entity: u64, transform_mat: Matrix4 },
    /// Ends the frame.
    EndFrame,
}

} // verus!
