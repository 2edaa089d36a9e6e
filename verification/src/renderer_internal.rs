//! The render thread's side of a frame: it takes in the messages of the
//! simulation thread up to the frame boundary, finds the visible parts, and
//! puts them in drawing order.

use crate::drawable::{
    DrawablePart,
    DrawableView,
    FrameView,
    Matrix4,
    ModelView,
    PointLight,
    RendererModel,
    RendererStaticDrawable,
    Vector3,
    DEFAULT_FAR_PLANE_BITS,
    DEFAULT_FOV_BITS,
    DEFAULT_NEAR_PLANE_BITS,
};
use crate::renderer::{queued_after, QueueEvent, Renderer};
use crate::renderer_command::RendererCommand;
use crate::renderer_scene::{
    lemma_transforms_keep_live,
    lemma_with_drawable,
    lemma_with_light,
    lemma_without_drawable,
    lemma_without_light,
    RendererScene,
    SceneView,
};
use crate::batch_sort::{grouped_by_material, parts_valid, sort_parts_by_material, sorted_by_material};
use crate::visibility::{
    chunk_end,
    chunk_start,
    cull_chunk,
    lemma_visible_parts_split,
    lemma_visible_parts_valid,
    visible_parts,
    CHUNK_SIZE,
};
use std::collections::VecDeque;
use vstd::prelude::*;

verus! {

/// A message together with what its sender worked out for it: the model
/// that the asset store holds under the message's model path, and the
/// point that the message's transform takes the origin to, as the product
/// of the transform and the origin in floating point. Only a
/// `RegisterStatic` message reads the model; without one its drawable has
/// no parts. Only a `RegisterPointLight` message reads the point; without
/// one its light stands at the first three cells of the transform's last
/// column.
#[derive(Debug)]
pub struct Message {
    pub command: RendererCommand,
    pub model: Option<RendererModel>,
    pub light_position: Option<Vector3>,
}

impl Message {
    /// The model that came with the message, or the empty model.
    pub open spec fn model_view(self) -> ModelView {
        match self.model {
            Some(model) => model@,
            None => ModelView::empty(),
        }
    }

    /// Where a light with `transform` stands: at the point that came with
    /// the message, or else at the translation of the transform.
    pub open spec fn light_position_view(self, transform: Matrix4) -> Vector3 {
        match self.light_position {
            Some(position) => position,
            None => transform.translation_spec(),
        }
    }

    /// Whether the message ends the frame.
    pub open spec fn ends_frame(self) -> bool {
        self.command is EndFrame
    }
}

/// The scene after `message` was taken in.
pub open spec fn scene_after(scene: SceneView, message: Message) -> SceneView {
    match message.command {
        RendererCommand::RegisterStatic {
            entity,
            transform,
            model_path,
            receive_shadows,
            cast_shadows,
            can_move,
        } => scene.with_drawable(
            DrawableView {
                entity,
                transform,
                old_transform: transform,
                model: message.model_view(),
                receive_shadows,
                cast_shadows,
                can_move,
            },
        ),
        RendererCommand::UnregisterStatic(entity) => scene.without_drawable(entity),
        RendererCommand::RegisterPointLight { entity, transform, intensity } => scene.with_light(
            PointLight { entity, position: message.light_position_view(transform), intensity },
        ),
        RendererCommand::UnregisterPointLight(entity) => scene.without_light(entity),
        RendererCommand::UpdateCameraTransform { camera_transform_mat, fov } => scene,
        RendererCommand::UpdateTransform { entity, transform_mat } => scene.with_transform(
            entity,
            transform_mat,
        ),
        RendererCommand::EndFrame => scene.with_frame_ended(),
    }
}

/// The view after `message` was taken in: a camera update sets the camera's
/// transform and field of view, the end of a frame makes the camera's
/// transform its previous transform, and nothing else touches the view.
pub open spec fn view_after(view: FrameView, message: Message) -> FrameView {
    match message.command {
        RendererCommand::UpdateCameraTransform { camera_transform_mat, fov } => FrameView {
            camera_transform: camera_transform_mat,
            camera_fov: fov,
            ..view
        },
        RendererCommand::EndFrame => FrameView { old_camera_transform: view.camera_transform, ..view },
        _ => view,
    }
}

/// The scene after the messages of `messages` were taken in, in order.
pub open spec fn scene_after_all(scene: SceneView, messages: Seq<Message>) -> SceneView
    decreases messages.len(),
{
    if messages.len() == 0 {
        scene
    } else {
        scene_after(scene_after_all(scene, messages.drop_last()), messages.last())
    }
}

/// The view after the messages of `messages` were taken in, in order.
pub open spec fn view_after_all(view: FrameView, messages: Seq<Message>) -> FrameView
    decreases messages.len(),
{
    if messages.len() == 0 {
        view
    } else {
        view_after(view_after_all(view, messages.drop_last()), messages.last())
    }
}

/// How many of `messages` belong to the current frame: those up to and
/// with the first one that ends the frame, or all of them if none does.
pub open spec fn frame_length(messages: Seq<Message>) -> nat
    decreases messages.len(),
{
    if messages.len() == 0 {
        0
    } else if messages[0].ends_frame() {
        1
    } else {
        1 + frame_length(messages.skip(1))
    }
}

/// The scene and the view of the render thread.
pub struct RendererInternal {
    scene: RendererScene,
    view: FrameView,
}

impl RendererInternal {
    /// The scene as a value.
    pub closed spec fn scene_view(&self) -> SceneView {
        self.scene@
    }

    /// The view as a value.
    pub closed spec fn frame_view(&self) -> FrameView {
        self.view
    }

    /// The scene is well formed.
    pub open spec fn wf(&self) -> bool {
        self.scene_view().wf()
    }

    /// An empty scene under the default view: the camera stands at the
    /// origin, now and the frame before, looks a quarter turn wide between
    /// the default planes, and sees nothing yet.
    pub fn new() -> (internal: Self)
        ensures
            internal.wf(),
            internal.scene_view().drawables.len() == 0,
            internal.scene_view().lights.len() == 0,
            internal.frame_view().drawable_parts@.len() == 0,
            internal.frame_view().camera_transform.cells@ == Matrix4::identity_cells(),
            internal.frame_view().old_camera_transform.cells@ == Matrix4::identity_cells(),
            internal.frame_view().camera_fov == DEFAULT_FOV_BITS,
            internal.frame_view().near_plane == DEFAULT_NEAR_PLANE_BITS,
            internal.frame_view().far_plane == DEFAULT_FAR_PLANE_BITS,
    {
        RendererInternal { scene: RendererScene::new(), view: FrameView::default() }
    }

    /// The scene.
    pub fn scene(&self) -> (scene: &RendererScene)
        ensures
            scene@ == self.scene_view(),
    {
        &self.scene
    }

    /// The view.
    pub fn view(&self) -> (view: &FrameView)
        ensures
            *view == self.frame_view(),
    {
        &self.view
    }

    /// Takes in one message as [`RendererInternal::handle_message`] does,
    /// and takes one frame off the renderer's count of waiting frames if
    /// the message ended a frame. Says whether it did.
    pub fn take_message(&mut self, renderer: &mut Renderer, message: Message) -> (frame_ended: bool)
        requires
            old(self).wf(),
        ensures
            final(self).scene_view() == scene_after(old(self).scene_view(), message),
            final(self).frame_view() == view_after(old(self).frame_view(), message),
            frame_ended == message.ends_frame(),
            final(renderer).queued() == if message.ends_frame() {
                queued_after(old(renderer).queued(), seq![QueueEvent::FrameDrained])
            } else {
                old(renderer).queued()
            },
            final(renderer).running() == old(renderer).running(),
            final(renderer).spec_window_state() == old(renderer).spec_window_state(),
            final(self).wf(),
    {
        let frame_ended = self.handle_message(message);
        if frame_ended {
            let _ = renderer.dec_queued_frames_counter();
        }
        frame_ended
    }

    /// Takes in one message, as [`scene_after`] and [`view_after`] describe,
    /// and says whether it ended the frame.
    pub fn handle_message(&mut self, message: Message) -> (frame_ended: bool)
        requires
            old(self).wf(),
        ensures
            final(self).scene_view() == scene_after(old(self).scene_view(), message),
            final(self).frame_view() == view_after(old(self).frame_view(), message),
            frame_ended == message.ends_frame(),
            final(self).wf(),
    {
        let ghost taken = message;
        let Message { command, model, light_position } = message;
        match command {
            RendererCommand::EndFrame => {
                self.scene.end_frame();
                self.view.old_camera_transform = self.view.camera_transform;
                true
            },
            RendererCommand::UpdateCameraTransform { camera_transform_mat, fov } => {
                self.view.camera_transform = camera_transform_mat;
                self.view.camera_fov = fov;
                false
            },
            RendererCommand::UpdateTransform { entity, transform_mat } => {
                self.scene.update_transform(entity, transform_mat);
                false
            },
            RendererCommand::RegisterStatic {
                model_path,
                entity,
                transform,
                receive_shadows,
                cast_shadows,
                can_move,
            } => {
                let model = match model {
                    Some(model) => model,
                    None => RendererModel::empty(),
                };
                self.scene.add_static_drawable(
                    RendererStaticDrawable {
                        entity,
                        transform,
                        old_transform: transform,
                        model,
                        receive_shadows,
                        cast_shadows,
                        can_move,
                    },
                );
                false
            },
            RendererCommand::UnregisterStatic(entity) => {
                self.scene.remove_static_drawable(entity);
                false
            },
            RendererCommand::RegisterPointLight { entity, transform, intensity } => {
                let position = match light_position {
                    Some(position) => position,
                    None => transform.translation(),
                };
                self.scene.add_point_light(PointLight { entity, position, intensity });
                false
            },
            RendererCommand::UnregisterPointLight(entity) => {
                self.scene.remove_point_light(entity);
                false
            },
        }
    }

    /// Takes in the messages of the current frame from the front of
    /// `messages`, in order: those up to and with the first one that ends
    /// the frame. Says whether the frame has ended; if it has not, all
    /// messages were taken in and more are to come.
    pub fn receive_messages(&mut self, messages: &mut VecDeque<Message>) -> (frame_ended: bool)
        requires
            old(self).wf(),
        ensures
            final(self).scene_view() == scene_after_all(
                old(self).scene_view(),
                old(messages)@.take(frame_length(old(messages)@) as int),
            ),
            final(self).frame_view() == view_after_all(
                old(self).frame_view(),
                old(messages)@.take(frame_length(old(messages)@) as int),
            ),
            final(messages)@ == old(messages)@.skip(frame_length(old(messages)@) as int),
            frame_ended == (frame_length(old(messages)@) > 0 && old(messages)@[frame_length(
                old(messages)@,
            ) - 1].ends_frame()),
            final(self).wf(),
    {
        let ghost all = messages@;
        let ghost scene0 = self.scene_view();
        let ghost view0 = self.frame_view();
        let mut frame_ended = false;
        let mut taken: usize = 0;
        let _ = messages.len();
        proof {
            assert(all.take(0) =~= Seq::empty());
            assert(all.skip(0) =~= all);
        }
        while !frame_ended && messages.len() > 0
            invariant
                self.wf(),
                taken <= all.len(),
                messages@ == all.skip(taken as int),
                self.scene_view() == scene_after_all(scene0, all.take(taken as int)),
                self.frame_view() == view_after_all(view0, all.take(taken as int)),
                frame_ended ==> taken > 0 && all[taken - 1].ends_frame() && frame_length(all)
                    == taken,
                !frame_ended ==> frame_length(all) == taken + frame_length(all.skip(taken as int)),
                !frame_ended ==> forall|j: int| 0 <= j < taken ==> !(#[trigger] all[j]).ends_frame(),
                all.len() <= usize::MAX,
            decreases messages@.len() + if frame_ended { 0int } else { 1int },
        {
            let message = messages.pop_front().unwrap();
            proof {
                assert(message == all[taken as int]);
                assert(all.take(taken + 1).drop_last() =~= all.take(taken as int));
                assert(all.take(taken + 1).last() == message);
                assert(messages@ =~= all.skip(taken + 1));
                assert(all.skip(taken as int).skip(1) =~= all.skip(taken + 1));
                assert(all.skip(taken as int)[0] == message);
            }
            frame_ended = self.handle_message(message);
            taken = taken + 1;
            proof {
                if frame_ended {
                    assert(frame_length(all.skip(taken - 1)) == 1);
                }
            }
        }
        proof {
            if !frame_ended {
                assert(messages@.len() == 0);
                assert(frame_length(all.skip(taken as int)) == 0);
                assert(taken == all.len());
            }
        }
        frame_ended
    }
}

impl RendererInternal {
    /// Finds the parts that this frame draws: the parts of every drawable
    /// that has a bounding box and of which `verdicts` says that the camera
    /// sees it, drawable after drawable. The list of the frame before is
    /// emptied and filled again; nothing else changes.
    pub fn update_visibility(&mut self, verdicts: &Vec<bool>)
        requires
            old(self).wf(),
        ensures
            final(self).scene_view() == old(self).scene_view(),
            final(self).frame_view().drawable_parts@ == visible_parts(
                old(self).scene_view().drawables,
                verdicts@,
                0,
                old(self).scene_view().drawables.len() as int,
            ),
            parts_valid(final(self).scene_view().drawables, final(self).frame_view().drawable_parts@),
            final(self).frame_view().camera_transform == old(self).frame_view().camera_transform,
            final(self).frame_view().old_camera_transform == old(self).frame_view().old_camera_transform,
            final(self).frame_view().camera_fov == old(self).frame_view().camera_fov,
            final(self).frame_view().near_plane == old(self).frame_view().near_plane,
            final(self).frame_view().far_plane == old(self).frame_view().far_plane,
            final(self).wf(),
    {
        let ghost views = self.scene_view().drawables;
        let mut existing_parts: Vec<DrawablePart> = Vec::new();
        std::mem::swap(&mut self.view.drawable_parts, &mut existing_parts);
        existing_parts.clear();
        let static_meshes = self.scene.static_drawables();
        let count = static_meshes.len();
        let chunks = count / CHUNK_SIZE + 1;
        let mut chunk_index: usize = 0;
        while chunk_index < chunks
            invariant
                chunk_index <= chunks,
                chunks == count / CHUNK_SIZE + 1,
                count == views.len(),
                views == static_meshes@.map_values(|d: RendererStaticDrawable| d@),
                existing_parts@ == visible_parts(
                    views,
                    verdicts@,
                    0,
                    chunk_start(chunk_index as int, count as int),
                ),
            decreases chunks - chunk_index,
        {
            proof {
                lemma_visible_parts_split(
                    views,
                    verdicts@,
                    0,
                    chunk_start(chunk_index as int, count as int),
                    chunk_end(chunk_index as int, count as int),
                );
                assert(chunk_end(chunk_index as int, count as int) == chunk_start(
                    chunk_index + 1,
                    count as int,
                ));
            }
            cull_chunk(chunk_index, static_meshes, verdicts, &mut existing_parts);
            chunk_index = chunk_index + 1;
        }
        proof {
            assert(chunk_start(chunks as int, count as int) == count);
            assert forall|i: int| 0 <= i < views.len() implies (#[trigger] views[i]).model.parts.len()
                <= usize::MAX by {
                assert(views[i].model.wf());
                assert(views[i] == static_meshes@[i]@);
                lemma_model_fits(static_meshes@[i]);
            }
            lemma_visible_parts_valid(views, verdicts@, 0, count as int);
        }
        self.view.drawable_parts = existing_parts;
    }

    /// Puts the visible parts in drawing order: sorted by material key,
    /// lowest first, so that the parts of one material stand side by side.
    /// The parts stay the same parts, each as often as before.
    pub fn reorder(&mut self)
        requires
            old(self).wf(),
            parts_valid(old(self).scene_view().drawables, old(self).frame_view().drawable_parts@),
        ensures
            final(self).scene_view() == old(self).scene_view(),
            final(self).frame_view().drawable_parts@.to_multiset()
                == old(self).frame_view().drawable_parts@.to_multiset(),
            sorted_by_material(
                final(self).scene_view().drawables,
                final(self).frame_view().drawable_parts@,
            ),
            grouped_by_material(
                final(self).scene_view().drawables,
                final(self).frame_view().drawable_parts@,
            ),
            parts_valid(final(self).scene_view().drawables, final(self).frame_view().drawable_parts@),
            final(self).frame_view().camera_transform == old(self).frame_view().camera_transform,
            final(self).frame_view().old_camera_transform == old(self).frame_view().old_camera_transform,
            final(self).frame_view().camera_fov == old(self).frame_view().camera_fov,
            final(self).frame_view().near_plane == old(self).frame_view().near_plane,
            final(self).frame_view().far_plane == old(self).frame_view().far_plane,
            final(self).wf(),
    {
        sort_parts_by_material(self.scene.static_drawables(), &mut self.view.drawable_parts);
    }
}

/// The parts of a model that is held in memory can be counted.
pub proof fn lemma_model_fits(drawable: RendererStaticDrawable)
    ensures
        drawable@.model.parts.len() <= usize::MAX,
{
    drawable.model.lemma_fits();
}

/// The entities with a drawable after the messages of `messages`: each
/// registration adds its entity, each removal takes its entity away.
pub open spec fn net_drawables(live: Set<u64>, messages: Seq<Message>) -> Set<u64>
    decreases messages.len(),
{
    if messages.len() == 0 {
        live
    } else {
        let before = net_drawables(live, messages.drop_last());
        match messages.last().command {
            RendererCommand::RegisterStatic {
                entity,
                transform,
                model_path,
                receive_shadows,
                cast_shadows,
                can_move,
            } => before.insert(entity),
            RendererCommand::UnregisterStatic(entity) => before.remove(entity),
            _ => before,
        }
    }
}

/// The entities with a light after the messages of `messages`.
pub open spec fn net_lights(live: Set<u64>, messages: Seq<Message>) -> Set<u64>
    decreases messages.len(),
{
    if messages.len() == 0 {
        live
    } else {
        let before = net_lights(live, messages.drop_last());
        match messages.last().command {
            RendererCommand::RegisterPointLight { entity, transform, intensity } => before.insert(
                entity,
            ),
            RendererCommand::UnregisterPointLight(entity) => before.remove(entity),
            _ => before,
        }
    }
}

/// Taking in one message keeps the scene well formed and changes the live
/// sets by that message's registration or removal alone.
pub proof fn lemma_scene_after(scene: SceneView, message: Message)
    requires
        scene.wf(),
        message.model_view().wf(),
    ensures
        scene_after(scene, message).wf(),
        scene_after(scene, message).live_drawables() == net_drawables(
            scene.live_drawables(),
            seq![message],
        ),
        scene_after(scene, message).live_lights() == net_lights(scene.live_lights(), seq![message]),
{
    let one = seq![message];
    assert(one.drop_last() =~= Seq::<Message>::empty());
    assert(one.last() == message);
    assert(net_drawables(scene.live_drawables(), one.drop_last()) == scene.live_drawables());
    assert(net_lights(scene.live_lights(), one.drop_last()) == scene.live_lights());
    match message.command {
        RendererCommand::RegisterStatic {
            entity,
            transform,
            model_path,
            receive_shadows,
            cast_shadows,
            can_move,
        } => {
            lemma_with_drawable(
                scene,
                DrawableView {
                    entity,
                    transform,
                    old_transform: transform,
                    model: message.model_view(),
                    receive_shadows,
                    cast_shadows,
                    can_move,
                },
            );
        },
        RendererCommand::UnregisterStatic(entity) => {
            lemma_without_drawable(scene, entity);
        },
        RendererCommand::RegisterPointLight { entity, transform, intensity } => {
            lemma_with_light(
                scene,
                PointLight { entity, position: message.light_position_view(transform), intensity },
            );
        },
        RendererCommand::UnregisterPointLight(entity) => {
            lemma_without_light(scene, entity);
        },
        RendererCommand::UpdateCameraTransform { camera_transform_mat, fov } => {},
        RendererCommand::UpdateTransform { entity, transform_mat } => {
            lemma_transforms_keep_live(scene, entity, transform_mat);
        },
        RendererCommand::EndFrame => {
            lemma_transforms_keep_live(scene, 0, scene.drawables[0].transform);
        },
    }
}

/// Whatever messages are taken in, in the order in which they were sent,
/// the entities that have a drawable and those that have a light are the
/// net effect of the registrations and removals among them, and no entity
/// has two drawables or two lights.
pub proof fn law_live_sets_are_net_effect(scene: SceneView, messages: Seq<Message>)
    requires
        scene.wf(),
        forall|i: int| 0 <= i < messages.len() ==> (#[trigger] messages[i]).model_view().wf(),
    ensures
        scene_after_all(scene, messages).wf(),
        scene_after_all(scene, messages).live_drawables() == net_drawables(
            scene.live_drawables(),
            messages,
        ),
        scene_after_all(scene, messages).live_lights() == net_lights(scene.live_lights(), messages),
    decreases messages.len(),
{
    if messages.len() > 0 {
        let before = scene_after_all(scene, messages.drop_last());
        law_live_sets_are_net_effect(scene, messages.drop_last());
        lemma_scene_after(before, messages.last());
        let one = seq![messages.last()];
        assert(one.drop_last() =~= Seq::<Message>::empty());
        assert(one.last() == messages.last());
        assert(net_drawables(before.live_drawables(), one.drop_last()) == before.live_drawables());
        assert(net_lights(before.live_lights(), one.drop_last()) == before.live_lights());
    }
}

} // verus!
