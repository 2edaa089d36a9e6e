use std::collections::VecDeque;

use sourcerenderer::batch_sort::sort_parts_by_material;
use sourcerenderer::drawable::{
    BoundingBox, DrawablePart, FrameView, Matrix4, MeshRange, PointLight, RendererModel,
    RendererStaticDrawable, Vector3, DEFAULT_FAR_PLANE_BITS, DEFAULT_FOV_BITS,
    DEFAULT_NEAR_PLANE_BITS, ONE_BITS,
};
use sourcerenderer::renderer::{Renderer, WindowState};
use sourcerenderer::renderer_command::RendererCommand;
use sourcerenderer::renderer_internal::{Message, RendererInternal};
use sourcerenderer::renderer_scene::RendererScene;
use sourcerenderer::visibility::cull_chunk;

fn matrix(x: f32, y: f32, z: f32) -> Matrix4 {
    let mut cells = Matrix4::identity().cells;
    cells[12] = x.to_bits();
    cells[13] = y.to_bits();
    cells[14] = z.to_bits();
    Matrix4::from_cells(cells)
}

fn unit_box() -> BoundingBox {
    BoundingBox {
        min: Vector3 { x: 0f32.to_bits(), y: 0f32.to_bits(), z: 0f32.to_bits() },
        max: Vector3 { x: 1f32.to_bits(), y: 1f32.to_bits(), z: 1f32.to_bits() },
    }
}

fn model(materials: &[u64], boxed: bool) -> RendererModel {
    let parts = materials
        .iter()
        .enumerate()
        .map(|(i, _)| MeshRange { start: 3 * i as u32, count: 3 })
        .collect::<Vec<MeshRange>>();
    RendererModel::new(parts, materials.to_vec(), if boxed { Some(unit_box()) } else { None })
        .unwrap()
}

fn drawable(entity: u64, materials: &[u64], can_move: bool) -> RendererStaticDrawable {
    RendererStaticDrawable {
        entity,
        transform: matrix(entity as f32, 0.0, 0.0),
        old_transform: matrix(entity as f32, 0.0, 0.0),
        model: model(materials, true),
        receive_shadows: true,
        cast_shadows: true,
        can_move,
    }
}

fn register(entity: u64, materials: &[u64], can_move: bool) -> Message {
    Message {
        command: RendererCommand::RegisterStatic {
            entity,
            transform: matrix(entity as f32, 0.0, 0.0),
            model_path: format!("model_{}", entity),
            receive_shadows: true,
            cast_shadows: false,
            can_move,
        },
        model: Some(model(materials, true)),
        light_position: None,
    }
}

fn plain(command: RendererCommand) -> Message {
    Message { command, model: None, light_position: None }
}

fn ids(scene: &RendererScene) -> Vec<u64> {
    let mut ids = scene.static_drawables().iter().map(|d| d.entity).collect::<Vec<u64>>();
    ids.sort();
    ids
}

fn light_ids(scene: &RendererScene) -> Vec<u64> {
    let mut ids = scene.point_lights().iter().map(|l| l.entity).collect::<Vec<u64>>();
    ids.sort();
    ids
}

#[test]
fn the_identity_has_ones_on_its_diagonal() {
    let identity = Matrix4::identity();
    for i in 0..16 {
        let expected = if i % 5 == 0 { 1.0f32 } else { 0.0f32 };
        assert_eq!(f32::from_bits(identity.cells[i]), expected);
    }
    assert_eq!(ONE_BITS, 1.0f32.to_bits());
    let translation = matrix(1.5, -2.0, 3.0).translation();
    assert_eq!(f32::from_bits(translation.x), 1.5);
    assert_eq!(f32::from_bits(translation.y), -2.0);
    assert_eq!(f32::from_bits(translation.z), 3.0);
}

#[test]
fn the_default_view_looks_a_quarter_turn_wide() {
    let view = FrameView::default();
    assert_eq!(view.camera_transform, Matrix4::identity());
    assert_eq!(view.old_camera_transform, Matrix4::identity());
    assert_eq!(f32::from_bits(view.camera_fov), std::f32::consts::PI / 2f32);
    assert_eq!(f32::from_bits(view.near_plane), 0.1f32);
    assert_eq!(f32::from_bits(view.far_plane), 100f32);
    assert_eq!(view.camera_fov, DEFAULT_FOV_BITS);
    assert_eq!(view.near_plane, DEFAULT_NEAR_PLANE_BITS);
    assert_eq!(view.far_plane, DEFAULT_FAR_PLANE_BITS);
    assert!(view.drawable_parts.is_empty());
}

#[test]
fn a_model_needs_one_material_for_each_part() {
    assert!(RendererModel::new(vec![MeshRange { start: 0, count: 3 }], vec![], None).is_none());
    assert!(RendererModel::new(vec![], vec![1], None).is_none());
    let model = RendererModel::new(vec![MeshRange { start: 6, count: 9 }], vec![5], Some(unit_box())).unwrap();
    assert_eq!(model.part_count(), 1);
    assert_eq!(model.part(0), MeshRange { start: 6, count: 9 });
    assert_eq!(model.material(0), 5);
    assert_eq!(model.bounding_box(), Some(unit_box()));
    let empty = RendererModel::empty();
    assert_eq!(empty.part_count(), 0);
    assert_eq!(empty.bounding_box(), None);
}

#[test]
fn registering_twice_keeps_one_drawable_with_the_later_data() {
    let mut scene = RendererScene::new();
    scene.add_static_drawable(drawable(1, &[10], false));
    scene.add_static_drawable(drawable(2, &[20], false));
    scene.add_static_drawable(drawable(1, &[30, 31], true));
    assert_eq!(scene.static_drawables().len(), 2);
    assert_eq!(scene.find_drawable(1), Some(0));
    assert_eq!(scene.find_drawable(2), Some(1));
    assert_eq!(scene.find_drawable(3), None);
    assert_eq!(scene.static_drawables()[0].model.part_count(), 2);
    assert!(scene.static_drawables()[0].can_move);
}

#[test]
fn removal_puts_the_last_drawable_in_the_gap() {
    let mut scene = RendererScene::new();
    for entity in 1..=4 {
        scene.add_static_drawable(drawable(entity, &[entity], false));
    }
    scene.remove_static_drawable(2);
    assert_eq!(scene.static_drawables().iter().map(|d| d.entity).collect::<Vec<u64>>(), vec![1, 4, 3]);
    scene.remove_static_drawable(9);
    assert_eq!(scene.static_drawables().len(), 3);
    scene.remove_static_drawable(3);
    assert_eq!(scene.static_drawables().iter().map(|d| d.entity).collect::<Vec<u64>>(), vec![1, 4]);
}

#[test]
fn lights_are_kept_by_entity_too() {
    let mut scene = RendererScene::new();
    let position = Vector3 { x: 1, y: 2, z: 3 };
    scene.add_point_light(PointLight { entity: 5, position, intensity: 10 });
    scene.add_point_light(PointLight { entity: 6, position, intensity: 20 });
    scene.add_point_light(PointLight { entity: 5, position, intensity: 30 });
    assert_eq!(scene.point_lights().len(), 2);
    assert_eq!(scene.find_light(5), Some(0));
    assert_eq!(scene.point_lights()[0].intensity, 30);
    scene.remove_point_light(5);
    assert_eq!(light_ids(&scene), vec![6]);
    assert_eq!(scene.find_light(5), None);
    scene.remove_point_light(5);
    assert_eq!(light_ids(&scene), vec![6]);
}

#[test]
fn an_update_for_an_unknown_entity_changes_nothing() {
    let mut scene = RendererScene::new();
    scene.add_static_drawable(drawable(1, &[10], true));
    scene.update_transform(2, matrix(9.0, 9.0, 9.0));
    assert_eq!(scene.static_drawables()[0].transform, matrix(1.0, 0.0, 0.0));
    scene.update_transform(1, matrix(9.0, 9.0, 9.0));
    assert_eq!(scene.static_drawables()[0].transform, matrix(9.0, 9.0, 9.0));
    assert_eq!(scene.static_drawables()[0].old_transform, matrix(1.0, 0.0, 0.0));
}

#[test]
fn the_end_of_a_frame_snapshots_what_can_move() {
    let mut scene = RendererScene::new();
    scene.add_static_drawable(drawable(1, &[10], true));
    scene.add_static_drawable(drawable(2, &[10], false));
    scene.update_transform(1, matrix(5.0, 0.0, 0.0));
    scene.update_transform(2, matrix(6.0, 0.0, 0.0));
    scene.end_frame();
    assert_eq!(scene.static_drawables()[0].old_transform, matrix(5.0, 0.0, 0.0));
    assert_eq!(scene.static_drawables()[1].old_transform, matrix(2.0, 0.0, 0.0));
    assert_eq!(scene.static_drawables()[1].transform, matrix(6.0, 0.0, 0.0));
}

#[test]
fn the_live_sets_are_the_net_effect_of_the_messages() {
    let mut internal = RendererInternal::new();
    let script: Vec<(bool, bool, u64)> = vec![
        (true, true, 1),
        (true, true, 2),
        (true, false, 2),
        (false, true, 7),
        (true, true, 3),
        (true, false, 9),
        (false, true, 8),
        (true, true, 2),
        (false, false, 7),
        (true, false, 1),
        (true, true, 3),
        (false, false, 5),
        (false, true, 7),
    ];
    let mut drawables = std::collections::BTreeSet::new();
    let mut lights = std::collections::BTreeSet::new();
    for (is_drawable, add, entity) in script {
        let message = match (is_drawable, add) {
            (true, true) => register(entity, &[1, 2], false),
            (true, false) => plain(RendererCommand::UnregisterStatic(entity)),
            (false, true) => plain(RendererCommand::RegisterPointLight {
                entity,
                transform: matrix(1.0, 2.0, 3.0),
                intensity: 5f32.to_bits(),
            }),
            (false, false) => plain(RendererCommand::UnregisterPointLight(entity)),
        };
        match (is_drawable, add) {
            (true, true) => {
                drawables.insert(entity);
            }
            (true, false) => {
                drawables.remove(&entity);
            }
            (false, true) => {
                lights.insert(entity);
            }
            (false, false) => {
                lights.remove(&entity);
            }
        }
        assert!(!internal.handle_message(message));
        assert_eq!(ids(internal.scene()), drawables.iter().cloned().collect::<Vec<u64>>());
        assert_eq!(light_ids(internal.scene()), lights.iter().cloned().collect::<Vec<u64>>());
    }
    assert_eq!(ids(internal.scene()), vec![2, 3]);
    assert_eq!(light_ids(internal.scene()), vec![7, 8]);
}

#[test]
fn a_light_stands_where_its_transform_puts_the_origin() {
    let mut internal = RendererInternal::new();
    internal.handle_message(plain(RendererCommand::RegisterPointLight {
        entity: 4,
        transform: matrix(1.0, 2.0, 3.0),
        intensity: 0.5f32.to_bits(),
    }));
    let light = internal.scene().point_lights()[0];
    assert_eq!(light.entity, 4);
    assert_eq!(f32::from_bits(light.position.x), 1.0);
    assert_eq!(f32::from_bits(light.position.y), 2.0);
    assert_eq!(f32::from_bits(light.position.z), 3.0);
    assert_eq!(f32::from_bits(light.intensity), 0.5);
}

#[test]
fn a_light_stands_at_the_point_that_comes_with_its_message() {
    let mut internal = RendererInternal::new();
    let mut renderer = Renderer::new(WindowState::Minimized);
    let origin = Vector3 { x: 0f32.to_bits(), y: f32::NAN.to_bits(), z: 7.5f32.to_bits() };
    let ended = internal.take_message(
        &mut renderer,
        Message {
            command: RendererCommand::RegisterPointLight {
                entity: 9,
                transform: matrix(-0.0, 2.0, 3.0),
                intensity: 1.0f32.to_bits(),
            },
            model: None,
            light_position: Some(origin),
        },
    );
    assert!(!ended);
    let light = internal.scene().point_lights()[0];
    assert_eq!(light.entity, 9);
    assert_eq!(light.position, origin);
}

#[test]
fn the_end_of_a_frame_takes_one_frame_off_the_count() {
    let mut internal = RendererInternal::new();
    let mut renderer = Renderer::new(WindowState::Minimized);
    let _ = renderer.end_frame();
    let _ = renderer.end_frame();
    assert!(renderer.is_saturated());
    assert!(!internal.take_message(&mut renderer, register(1, &[1], true)));
    assert!(renderer.is_saturated());
    assert!(internal.take_message(&mut renderer, plain(RendererCommand::EndFrame)));
    assert!(!renderer.is_saturated());
    assert_eq!(renderer.dec_queued_frames_counter(), 1);
    assert!(!internal.take_message(
        &mut renderer,
        plain(RendererCommand::UnregisterStatic(1))
    ));
    assert_eq!(renderer.dec_queued_frames_counter(), 0);
}

#[test]
fn a_drawable_without_a_model_has_nothing_to_draw() {
    let mut internal = RendererInternal::new();
    internal.handle_message(Message {
        command: RendererCommand::RegisterStatic {
            entity: 1,
            transform: Matrix4::identity(),
            model_path: "missing".to_string(),
            receive_shadows: false,
            cast_shadows: false,
            can_move: false,
        },
        model: None,
        light_position: None,
    });
    assert_eq!(internal.scene().static_drawables()[0].model.part_count(), 0);
    internal.update_visibility(&vec![true]);
    assert!(internal.view().drawable_parts.is_empty());
}

#[test]
fn messages_are_taken_in_up_to_the_end_of_the_frame() {
    let mut internal = RendererInternal::new();
    let mut queue: VecDeque<Message> = VecDeque::new();
    queue.push_back(register(1, &[1], true));
    queue.push_back(plain(RendererCommand::UpdateCameraTransform {
        camera_transform_mat: matrix(0.0, 1.0, 0.0),
        fov: 1.0f32.to_bits(),
    }));
    queue.push_back(plain(RendererCommand::UpdateTransform { entity: 1, transform_mat: matrix(4.0, 0.0, 0.0) }));
    queue.push_back(plain(RendererCommand::EndFrame));
    queue.push_back(register(2, &[1], true));
    queue.push_back(plain(RendererCommand::EndFrame));
    queue.push_back(register(3, &[1], true));
    assert!(internal.receive_messages(&mut queue));
    assert_eq!(queue.len(), 3);
    assert_eq!(ids(internal.scene()), vec![1]);
    assert_eq!(internal.scene().static_drawables()[0].old_transform, matrix(4.0, 0.0, 0.0));
    assert_eq!(internal.view().camera_transform, matrix(0.0, 1.0, 0.0));
    assert_eq!(internal.view().old_camera_transform, matrix(0.0, 1.0, 0.0));
    assert_eq!(f32::from_bits(internal.view().camera_fov), 1.0);
    assert!(internal.receive_messages(&mut queue));
    assert_eq!(queue.len(), 1);
    assert_eq!(ids(internal.scene()), vec![1, 2]);
    assert!(!internal.receive_messages(&mut queue));
    assert!(queue.is_empty());
    assert_eq!(ids(internal.scene()), vec![1, 2, 3]);
    assert!(!internal.receive_messages(&mut queue));
}

#[test]
fn the_camera_keeps_its_previous_transform_until_the_frame_ends() {
    let mut internal = RendererInternal::new();
    internal.handle_message(plain(RendererCommand::UpdateCameraTransform {
        camera_transform_mat: matrix(1.0, 0.0, 0.0),
        fov: 2.0f32.to_bits(),
    }));
    assert_eq!(internal.view().old_camera_transform, Matrix4::identity());
    assert!(internal.handle_message(plain(RendererCommand::EndFrame)));
    assert_eq!(internal.view().old_camera_transform, matrix(1.0, 0.0, 0.0));
}

#[test]
fn what_the_camera_does_not_see_is_not_drawn() {
    let mut internal = RendererInternal::new();
    internal.handle_message(register(1, &[5, 6, 7], false));
    internal.handle_message(register(2, &[5], false));
    internal.handle_message(register(3, &[8, 9], false));
    internal.update_visibility(&vec![true, false, true]);
    assert_eq!(
        internal.view().drawable_parts,
        vec![
            DrawablePart { drawable_index: 0, part_index: 0 },
            DrawablePart { drawable_index: 0, part_index: 1 },
            DrawablePart { drawable_index: 0, part_index: 2 },
            DrawablePart { drawable_index: 2, part_index: 0 },
            DrawablePart { drawable_index: 2, part_index: 1 },
        ]
    );
    internal.update_visibility(&vec![false, false, false]);
    assert!(internal.view().drawable_parts.is_empty());
    internal.update_visibility(&vec![true]);
    assert_eq!(internal.view().drawable_parts.len(), 3);
}

#[test]
fn a_drawable_without_a_bounding_box_is_never_drawn() {
    let mut scene = RendererScene::new();
    scene.add_static_drawable(RendererStaticDrawable {
        entity: 1,
        transform: Matrix4::identity(),
        old_transform: Matrix4::identity(),
        model: model(&[1, 2], false),
        receive_shadows: false,
        cast_shadows: false,
        can_move: false,
    });
    let mut parts = Vec::new();
    cull_chunk(0, scene.static_drawables(), &vec![true], &mut parts);
    assert!(parts.is_empty());
}

#[test]
fn many_parts_pass_through_the_chunk_buffer_in_order() {
    let mut internal = RendererInternal::new();
    let materials = vec![1u64; 50];
    for entity in 0..200u64 {
        internal.handle_message(register(entity, &materials, false));
    }
    let verdicts = (0..200).map(|i| i % 3 != 0).collect::<Vec<bool>>();
    internal.update_visibility(&verdicts);
    let mut expected = Vec::new();
    for drawable_index in 0..200usize {
        if drawable_index % 3 != 0 {
            for part_index in 0..50usize {
                expected.push(DrawablePart { drawable_index, part_index });
            }
        }
    }
    assert_eq!(internal.view().drawable_parts.len(), 133 * 50);
    assert_eq!(internal.view().drawable_parts, expected);
}

#[test]
fn chunks_cover_sixty_four_drawables_each() {
    let mut scene = RendererScene::new();
    for entity in 0..130u64 {
        scene.add_static_drawable(drawable(entity, &[1], false));
    }
    let verdicts = vec![true; 130];
    let mut parts = vec![DrawablePart { drawable_index: 999, part_index: 0 }];
    cull_chunk(1, scene.static_drawables(), &verdicts, &mut parts);
    assert_eq!(parts.len(), 65);
    assert_eq!(parts[0].drawable_index, 999);
    assert_eq!(parts[1].drawable_index, 64);
    assert_eq!(parts[64].drawable_index, 127);
    let mut last = Vec::new();
    cull_chunk(2, scene.static_drawables(), &verdicts, &mut last);
    assert_eq!(last.iter().map(|p| p.drawable_index).collect::<Vec<usize>>(), vec![128, 129]);
    let mut none = Vec::new();
    cull_chunk(3, scene.static_drawables(), &verdicts, &mut none);
    cull_chunk(usize::MAX, scene.static_drawables(), &verdicts, &mut none);
    assert!(none.is_empty());
}

#[test]
fn sorting_puts_parts_of_one_material_side_by_side() {
    let mut internal = RendererInternal::new();
    internal.handle_message(register(1, &[30, 10, 20], false));
    internal.handle_message(register(2, &[20, 30], false));
    internal.handle_message(register(3, &[10, 10, 5], false));
    internal.update_visibility(&vec![true, true, true]);
    let mut before = internal.view().drawable_parts.clone();
    internal.reorder();
    let keys = internal
        .view()
        .drawable_parts
        .iter()
        .map(|p| internal.scene().static_drawables()[p.drawable_index].model.material(p.part_index))
        .collect::<Vec<u64>>();
    assert_eq!(keys, vec![5, 10, 10, 10, 20, 20, 30, 30]);
    let mut after = internal.view().drawable_parts.clone();
    let order = |a: &DrawablePart, b: &DrawablePart| {
        (a.drawable_index, a.part_index).cmp(&(b.drawable_index, b.part_index))
    };
    before.sort_by(order);
    after.sort_by(order);
    assert_eq!(before, after);
}

#[test]
fn sorting_nothing_and_sorting_what_is_sorted_change_nothing() {
    let mut scene = RendererScene::new();
    scene.add_static_drawable(drawable(1, &[1, 2, 3], false));
    let mut none: Vec<DrawablePart> = Vec::new();
    sort_parts_by_material(scene.static_drawables(), &mut none);
    assert!(none.is_empty());
    let mut parts = vec![
        DrawablePart { drawable_index: 0, part_index: 0 },
        DrawablePart { drawable_index: 0, part_index: 1 },
        DrawablePart { drawable_index: 0, part_index: 2 },
    ];
    sort_parts_by_material(scene.static_drawables(), &mut parts);
    assert_eq!(parts.iter().map(|p| p.part_index).collect::<Vec<usize>>(), vec![0, 1, 2]);
    let mut reversed = vec![
        DrawablePart { drawable_index: 0, part_index: 2 },
        DrawablePart { drawable_index: 0, part_index: 0 },
        DrawablePart { drawable_index: 0, part_index: 1 },
        DrawablePart { drawable_index: 0, part_index: 0 },
    ];
    sort_parts_by_material(scene.static_drawables(), &mut reversed);
    assert_eq!(reversed.iter().map(|p| p.part_index).collect::<Vec<usize>>(), vec![0, 0, 1, 2]);
}
