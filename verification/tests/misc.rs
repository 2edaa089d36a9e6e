use sourcerenderer::backend::VkBackend;
use sourcerenderer::bsp_level::{
    append_mesh_range, build_displacement_cell, build_face, corner_index, disp_vert_index,
    displacement_size, edge_start, face_displacement, read_child, BspLevelLoader, Child,
};
use sourcerenderer::drawable::MeshRange;
use sourcerenderer::command::{
    CommandBufferType, CommandPool, PipelineBinding, VkCommandBuffer, VkCommandBufferState, VkCommandPool,
    VkSharedCaches, VkSubmission,
};
use sourcerenderer::engine::{Engine, TICK_RATE};
use sourcerenderer::fps_camera::{fps_camera_movement, FPSCameraComponent, MovementDirection};
use sourcerenderer::job::{JobThread, JobThreadContext};
use sourcerenderer::platform::{GraphicsApi, PlatformEvent};
use sourcerenderer::presenter::{
    Extent2D, Presenter, SurfaceCapabilities, SurfaceFormat, COLOR_SPACE_SRGB_NONLINEAR,
    FORMAT_B8G8R8A8_UNORM, FORMAT_UNDEFINED, PRESENT_MODE_FIFO, SWAPCHAIN_EXT_NAME,
};
use sourcerenderer::queue::{QueueType, VkQueue, VkQueueInfo};
use sourcerenderer::texture::{
    address_mode_to_vk, attachment_aspect, attachment_view_dimensions, filter_to_vk, filter_to_vk_mip,
    image_extent, shader_resource_aspect, texture_usage_to_vk, AddressMode, Filter,
    TEXTURE_USAGE_BLIT_DST, TEXTURE_USAGE_COMPUTE_SHADER_STORAGE_WRITE, TEXTURE_USAGE_COPY_SRC,
    TEXTURE_USAGE_DEPTH_READ, TEXTURE_USAGE_FRAGMENT_SHADER_LOCAL, TEXTURE_USAGE_FRAGMENT_SHADER_SAMPLED,
    TEXTURE_USAGE_RENDER_TARGET, TEXTURE_USAGE_VERTEX_SHADER_SAMPLED,
};
use sourcerenderer::vtf_loader::{
    bytes_end_with, convert_vtf_texture_format, smallest_mip_map, Format, ImageFormat, VTFTextureLoader,
};

struct Context(u32);

impl JobThreadContext for Context {}

#[test]
fn a_command_buffer_records_then_can_be_executed() {
    let mut buffer = VkCommandBuffer::new(42, CommandBufferType::PRIMARY);
    assert_eq!(buffer.get_handle(), 42);
    assert_eq!(buffer.state(), VkCommandBufferState::Recording);
    assert_eq!(buffer.render_pass(), None);
    buffer.begin_render_pass(7);
    assert_eq!(buffer.render_pass(), Some(7));
    buffer.end_render_pass();
    assert_eq!(buffer.render_pass(), None);
    let submission = buffer.finish();
    assert_eq!(submission.get_cmd_buffer(), 42);
    assert_eq!(submission, VkSubmission::new(42));
    assert_eq!(buffer.state(), VkCommandBufferState::Executable);
    buffer.begin();
    assert_eq!(buffer.state(), VkCommandBufferState::Recording);
    buffer.end();
    assert_eq!(buffer.state(), VkCommandBufferState::Executable);
}

#[test]
fn a_pipeline_is_built_once_and_then_taken_from_the_cache() {
    let mut caches = VkSharedCaches::new();
    let mut buffer = VkCommandBuffer::new(1, CommandBufferType::SECONDARY);
    buffer.begin_render_pass(9);
    assert_eq!(buffer.set_pipeline2(&caches, 1234), PipelineBinding::Build { render_pass: 9, sub_pass: 0 });
    caches.insert_pipeline(1234, 77);
    assert_eq!(buffer.set_pipeline2(&caches, 1234), PipelineBinding::Cached(77));
    assert_eq!(caches.get_pipeline(1234), Some(77));
    assert_eq!(caches.get_pipeline(1), None);
    caches.insert_pipeline(1234, 78);
    assert_eq!(buffer.set_pipeline2(&caches, 1234), PipelineBinding::Cached(78));
}

#[test]
fn a_pool_hands_out_its_first_buffer() {
    let mut pool = VkCommandPool::new();
    assert_eq!(pool.get_command_buffer(CommandBufferType::PRIMARY), None);
    assert_eq!(pool.add_command_buffer(10, CommandBufferType::PRIMARY), 0);
    assert_eq!(pool.add_command_buffer(11, CommandBufferType::SECONDARY), 1);
    assert_eq!(pool.len(), 2);
    assert_eq!(pool.handles(), vec![10, 11]);
    pool.reset();
    assert_eq!(pool.buffer(0).state(), VkCommandBufferState::Ready);
    assert_eq!(pool.buffer(1).state(), VkCommandBufferState::Ready);
    assert_eq!(pool.get_command_buffer(CommandBufferType::PRIMARY), Some(0));
    assert_eq!(pool.buffer(0).state(), VkCommandBufferState::Recording);
    assert_eq!(pool.buffer(1).state(), VkCommandBufferState::Ready);
    assert_eq!(pool.get_command_buffer(CommandBufferType::SECONDARY), Some(0));
}

#[test]
fn a_thread_takes_contexts_until_it_runs() {
    let mut thread: JobThread<Context> = JobThread::new();
    assert!(thread.is_preparing());
    assert_eq!(thread.add_arg("a".to_string(), Context(1)), Ok(true));
    assert_eq!(thread.add_arg("b".to_string(), Context(2)), Ok(true));
    assert_eq!(thread.add_arg("a".to_string(), Context(3)), Ok(false));
    let contexts = thread.run().ok().unwrap();
    assert_eq!(contexts.iter().map(|(k, c)| (k.as_str(), c.0)).collect::<Vec<(&str, u32)>>(), vec![("a", 1), ("b", 2)]);
    assert!(thread.is_running());
    assert_eq!(thread.add_arg("c".to_string(), Context(4)), Err("Wrong state".to_string()));
    assert!(thread.is_running());
    assert_eq!(thread.run().err(), Some("Thread is running already".to_string()));
    assert!(!thread.is_running());
    assert!(!thread.is_preparing());
    assert_eq!(thread.add_arg("c".to_string(), Context(4)), Err("Wrong state".to_string()));
}

#[test]
fn the_presenter_picks_what_swapchains_are_made_with() {
    assert_eq!(SWAPCHAIN_EXT_NAME, "VK_KHR_swapchain");
    assert_eq!(Presenter::pick_present_mode(&vec![0, 1, PRESENT_MODE_FIFO, 3]), Some(2));
    assert_eq!(Presenter::pick_present_mode(&vec![0, 1, 3]), None);
    assert_eq!(Presenter::pick_present_mode(&vec![]), None);
    let wanted = SurfaceFormat { format: FORMAT_B8G8R8A8_UNORM, color_space: COLOR_SPACE_SRGB_NONLINEAR };
    let any = SurfaceFormat { format: FORMAT_UNDEFINED, color_space: 5 };
    let other = SurfaceFormat { format: 37, color_space: COLOR_SPACE_SRGB_NONLINEAR };
    let space = SurfaceFormat { format: FORMAT_B8G8R8A8_UNORM, color_space: 1 };
    assert_eq!(Presenter::pick_format(&vec![any]), Some(wanted));
    assert_eq!(Presenter::pick_format(&vec![other, space, wanted]), Some(wanted));
    assert_eq!(Presenter::pick_format(&vec![any, other]), None);
    assert_eq!(Presenter::pick_format(&vec![]), None);
    let current_extent = Extent2D { width: 640, height: 480 };
    let capabilities = SurfaceCapabilities { min_image_count: 2, max_image_count: 0, current_extent };
    assert_eq!(Presenter::pick_swap_extent(&capabilities), Some(current_extent));
    assert_eq!(Presenter::pick_image_count(&capabilities), 3);
    let limited = SurfaceCapabilities {
        min_image_count: 2,
        max_image_count: 8,
        current_extent: Extent2D { width: u32::MAX, height: 1 },
    };
    assert_eq!(Presenter::pick_swap_extent(&limited), None);
    assert_eq!(Presenter::pick_image_count(&limited), 8);
}

#[test]
fn texture_usages_ask_for_the_image_usages_they_need() {
    assert_eq!(texture_usage_to_vk(0), 0);
    assert_eq!(texture_usage_to_vk(TEXTURE_USAGE_RENDER_TARGET), 0x10);
    assert_eq!(texture_usage_to_vk(TEXTURE_USAGE_FRAGMENT_SHADER_LOCAL), 0x80);
    assert_eq!(texture_usage_to_vk(TEXTURE_USAGE_FRAGMENT_SHADER_LOCAL | TEXTURE_USAGE_RENDER_TARGET), 0x10);
    assert_eq!(
        texture_usage_to_vk(
            TEXTURE_USAGE_FRAGMENT_SHADER_SAMPLED | TEXTURE_USAGE_VERTEX_SHADER_SAMPLED | TEXTURE_USAGE_BLIT_DST
        ),
        0x04 | 0x02
    );
    assert_eq!(texture_usage_to_vk(TEXTURE_USAGE_COMPUTE_SHADER_STORAGE_WRITE | TEXTURE_USAGE_COPY_SRC), 0x08 | 0x01);
    assert_eq!(texture_usage_to_vk(TEXTURE_USAGE_DEPTH_READ | TEXTURE_USAGE_RENDER_TARGET), 0x20 | 0x10);
    assert_eq!(filter_to_vk(Filter::Linear), 1);
    assert_eq!(filter_to_vk(Filter::Nearest), 0);
    assert_eq!(filter_to_vk_mip(Filter::Linear), 1);
    assert_eq!(filter_to_vk_mip(Filter::Nearest), 0);
    assert_eq!(address_mode_to_vk(AddressMode::Repeat), 0);
    assert_eq!(address_mode_to_vk(AddressMode::MirroredRepeat), 1);
    assert_eq!(address_mode_to_vk(AddressMode::ClampToEdge), 2);
    assert_eq!(address_mode_to_vk(AddressMode::ClampToBorder), 3);
    assert_eq!(shader_resource_aspect(true, true), 2);
    assert_eq!(shader_resource_aspect(true, false), 2);
    assert_eq!(shader_resource_aspect(false, true), 1);
    assert_eq!(attachment_aspect(true, true), 6);
    assert_eq!(attachment_aspect(true, false), 2);
    assert_eq!(attachment_aspect(false, false), 1);
    assert_eq!(attachment_view_dimensions(1, 10), 1);
    assert_eq!(attachment_view_dimensions(2, 1), 2);
    assert_eq!(attachment_view_dimensions(2, 2), 3);
    assert_eq!(image_extent(0), 1);
    assert_eq!(image_extent(9), 9);
}

#[test]
fn texture_files_are_known_by_their_ending() {
    let loader = VTFTextureLoader::new();
    assert!(loader.matches("materials/brick/wall.vtf", true));
    assert!(!loader.matches("materials/brick/wall.vtf", false));
    assert!(!loader.matches("materials/brick/wall.vmt", true));
    assert!(!loader.matches("vtf", true));
    assert!(!loader.matches("wall.VTF", true));
    assert!(bytes_end_with(b"abc", b""));
    assert!(bytes_end_with(b"abc", b"abc"));
    assert!(!bytes_end_with(b"bc", b"abc"));
    assert_eq!(convert_vtf_texture_format(ImageFormat::DXT1), Some(Format::DXT1));
    assert_eq!(convert_vtf_texture_format(ImageFormat::DXT1OneBitAlpha), Some(Format::DXT1Alpha));
    assert_eq!(convert_vtf_texture_format(ImageFormat::DXT3), Some(Format::DXT3));
    assert_eq!(convert_vtf_texture_format(ImageFormat::DXT5), Some(Format::DXT5));
    assert_eq!(convert_vtf_texture_format(ImageFormat::RGBA8888), Some(Format::RGBA8));
    assert_eq!(convert_vtf_texture_format(ImageFormat::Other(3)), None);
    assert_eq!(smallest_mip_map(1), 0);
    assert_eq!(smallest_mip_map(9), 8);
}

#[test]
fn the_keys_ask_for_a_direction() {
    assert_eq!(fps_camera_movement(false, false, false, false), MovementDirection { x: 0, z: 0 });
    assert_eq!(fps_camera_movement(true, false, false, false), MovementDirection { x: 0, z: 1 });
    assert_eq!(fps_camera_movement(false, true, false, false), MovementDirection { x: 0, z: -1 });
    assert_eq!(fps_camera_movement(false, false, true, false), MovementDirection { x: 1, z: 0 });
    assert_eq!(fps_camera_movement(false, false, false, true), MovementDirection { x: -1, z: 0 });
    assert_eq!(fps_camera_movement(true, true, true, false), MovementDirection { x: 1, z: 0 });
    assert!(!fps_camera_movement(true, true, true, true).is_moving());
    assert!(fps_camera_movement(true, false, false, true).is_moving());
    let _ = FPSCameraComponent {};
}

#[test]
fn the_engine_stops_when_one_of_its_systems_has_died() {
    assert_eq!(TICK_RATE, 5);
    assert_eq!(Engine::initialize_global(2), 0);
    assert_eq!(Engine::initialize_global(16), 14);
    let mut engine = Engine::run();
    assert!(engine.is_running());
    engine.poll_platform(true, true);
    assert!(engine.is_running());
    engine.poll_platform(true, false);
    assert_eq!(engine, Engine { game_running: false, renderer_running: false });
    assert!(!engine.is_running());
    let mut engine = Engine { game_running: false, renderer_running: true };
    assert!(!engine.is_running());
    assert!(!engine.renderer_running);
    let mut engine = Engine::run();
    engine.stop();
    assert!(!engine.is_running());
    assert_eq!(PlatformEvent::Continue, PlatformEvent::Continue);
    assert_ne!(PlatformEvent::Continue, PlatformEvent::Quit);
    assert_ne!(GraphicsApi::Vulkan, GraphicsApi::OpenGLES);
    assert_eq!(VkBackend::Vulkan, VkBackend::Vulkan);
}

#[test]
fn a_queue_knows_its_family() {
    let info = VkQueueInfo { queue_family_index: 3, queue_index: 1, queue_type: QueueType::Transfer, supports_presentation: false };
    let queue = VkQueue::new(info, 99);
    assert_eq!(queue.get_queue_family_index(), 3);
    assert_eq!(queue.get_queue_type(), QueueType::Transfer);
    assert!(!queue.supports_presentation());
}

#[test]
fn a_face_is_a_fan_of_triangles() {
    let mut indices = vec![7];
    build_face(10, 5, &mut indices);
    assert_eq!(indices, vec![7, 10, 12, 11, 10, 13, 12, 10, 14, 13]);
    let mut none = Vec::new();
    build_face(10, 2, &mut none);
    build_face(10, 0, &mut none);
    assert!(none.is_empty());
    build_face(0, 3, &mut none);
    assert_eq!(none, vec![0, 2, 1]);
}

#[test]
fn a_displacement_is_a_grid_of_cells() {
    let mut indices = Vec::new();
    build_displacement_cell(8, &mut indices);
    assert_eq!(indices, vec![8, 10, 9, 8, 11, 10]);
    assert_eq!(displacement_size(0), 1);
    assert_eq!(displacement_size(3), 8);
    assert_eq!(displacement_size(4), 16);
    assert_eq!(disp_vert_index(100, 2, 3, 8), 129);
    assert_eq!(disp_vert_index(0, 0, 0, 4), 0);
    assert_eq!(disp_vert_index(80_000, 40_000, 40_000, 40_000), 1_600_160_000);
    assert_eq!(disp_vert_index(7, 5, 0, i32::MAX), 12);
    assert_eq!(corner_index(0, 0), 0);
    assert_eq!(corner_index(3, 1), 0);
    assert_eq!(corner_index(3, 3), 2);
    assert_eq!(corner_index(2, 1), 3);
}

#[test]
fn the_tree_leads_to_nodes_and_leaves() {
    assert_eq!(read_child(0), Child::Node(0));
    assert_eq!(read_child(17), Child::Node(17));
    assert_eq!(read_child(-1), Child::Leaf(0));
    assert_eq!(read_child(-18), Child::Leaf(17));
    assert_eq!(read_child(i32::MIN), Child::Leaf(i32::MAX as usize));
    assert_eq!(edge_start(0), 0);
    assert_eq!(edge_start(5), 0);
    assert_eq!(edge_start(-5), 1);
}

#[test]
fn level_files_are_known_by_their_names() {
    let loader = BspLevelLoader::new(r"^(de|cs)_[a-z0-9_]+\.bsp$").unwrap();
    assert!(loader.matches("maps/de_overpass.bsp"));
    assert!(loader.matches("cs_office.bsp"));
    assert!(!loader.matches("maps/de_overpass.bsp/readme.txt"));
    assert!(!loader.matches("de_overpass.bsp/.."));
    assert!(!loader.matches("maps/overpass.bsp"));
    assert!(!loader.matches(""));
    assert!(!loader.matches("/"));
    assert!(BspLevelLoader::new("(de|cs").is_none());
    let any = BspLevelLoader::new("").unwrap();
    assert!(any.matches("anything"));
    assert!(!any.matches(".."));
}

#[test]
fn the_indices_of_a_material_make_a_range_of_the_mesh() {
    let mut mesh = vec![7, 8, 9];
    assert_eq!(append_mesh_range(&mut mesh, &vec![]), None);
    assert_eq!(append_mesh_range(&mut mesh, &vec![1, 2, 3, 4, 5, 6]), Some(MeshRange { start: 3, count: 6 }));
    assert_eq!(mesh, vec![7, 8, 9, 1, 2, 3, 4, 5, 6]);
    assert_eq!(append_mesh_range(&mut mesh, &vec![0, 0, 0]), Some(MeshRange { start: 9, count: 3 }));
    assert_eq!(face_displacement(-1), None);
    assert_eq!(face_displacement(0), Some(0));
    assert_eq!(face_displacement(12), Some(12));
}
