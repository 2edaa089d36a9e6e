use sourcerenderer::frame::{
    Frame, FrameAction, FrameEvent, FrameOutcome, FramePhase, FrameStart, SwapchainError, SwapchainInfo,
};
use sourcerenderer::renderer::{Renderer, WindowState};
use sourcerenderer::renderer_command::RendererCommand;
use sourcerenderer::drawable::Matrix4;
use sourcerenderer::scene::{DeltaTime, FilterAll, Scene, Tick, WaitStep};

fn swapchain() -> SwapchainInfo {
    SwapchainInfo { width: 800, height: 600, format: 44, sample_count: 1 }
}

fn visible() -> WindowState {
    WindowState::Visible { width: 800, height: 600, focussed: true }
}

fn begun() -> Frame {
    Frame::begin(visible(), swapchain()).1.unwrap()
}

#[test]
fn a_minimized_window_sleeps_and_a_closed_one_stops() {
    let (start, frame) = Frame::begin(WindowState::Minimized, swapchain());
    assert_eq!(start, FrameStart::Sleep);
    assert!(frame.is_none());
    let (start, frame) = Frame::begin(WindowState::Exited, swapchain());
    assert_eq!(start, FrameStart::Stop);
    assert!(frame.is_none());
    let (start, frame) = Frame::begin(WindowState::FullScreen { width: 1920, height: 1080 }, swapchain());
    assert_eq!(start, FrameStart::Render { width: 1920, height: 1080 });
    assert_eq!(frame.unwrap().phase(), FramePhase::Rendering);
    let (start, _) = Frame::begin(visible(), swapchain());
    assert_eq!(start, FrameStart::Render { width: 800, height: 600 });
}

#[test]
fn a_frame_that_renders_is_presented() {
    let mut frame = begun();
    assert_eq!(frame.render(FrameEvent::RenderSucceeded), FrameAction::Finish(FrameOutcome::Presented));
    assert_eq!(frame.phase(), FramePhase::Ended(FrameOutcome::Presented));
}

#[test]
fn a_lost_surface_is_recreated_once_and_rendered_to_once_more() {
    let mut frame = begun();
    let mut recreations = 0;
    let mut retries = 0;
    let mut action = frame.render(FrameEvent::RenderFailed { error: SwapchainError::SurfaceLost, surface_changed: true });
    assert_eq!(action, FrameAction::RecreateOnSurface { width: 800, height: 600 });
    let script = [
        FrameEvent::SwapchainRecreated { info: SwapchainInfo { width: 1024, height: 768, format: 44, sample_count: 1 } },
        FrameEvent::RenderSucceeded,
    ];
    let mut step = 0;
    loop {
        match action {
            FrameAction::RecreateOnSurface { .. } | FrameAction::Recreate { .. } => recreations += 1,
            FrameAction::RenderAgain => retries += 1,
            FrameAction::Finish(outcome) => {
                assert_eq!(outcome, FrameOutcome::Presented);
                break;
            }
        }
        action = frame.render(script[step]);
        step += 1;
    }
    assert_eq!(recreations, 1);
    assert_eq!(retries, 1);
    assert_eq!(frame.swapchain().width, 1024);
}

#[test]
fn a_lost_surface_without_a_new_one_recreates_on_the_old_surface() {
    let mut frame = begun();
    let action = frame.render(FrameEvent::RenderFailed { error: SwapchainError::SurfaceLost, surface_changed: false });
    assert_eq!(action, FrameAction::Recreate { width: 800, height: 600 });
    assert_eq!(frame.phase(), FramePhase::Recreating);
    let info = frame.swapchain();
    assert_eq!(frame.render(FrameEvent::SwapchainRecreated { info }), FrameAction::RenderAgain);
    assert_eq!(frame.render(FrameEvent::RenderSucceeded), FrameAction::Finish(FrameOutcome::Presented));
}

#[test]
fn other_failures_recreate_on_the_old_surface() {
    for error in [SwapchainError::OutOfDate, SwapchainError::Other] {
        for surface_changed in [false, true] {
            let mut frame = begun();
            let action = frame.render(FrameEvent::RenderFailed { error, surface_changed });
            assert_eq!(action, FrameAction::Recreate { width: 800, height: 600 });
            assert_eq!(frame.phase(), FramePhase::Recreating);
        }
    }
}

#[test]
fn a_recreated_swapchain_of_another_format_is_fatal() {
    let mut frame = begun();
    frame.render(FrameEvent::RenderFailed { error: SwapchainError::OutOfDate, surface_changed: false });
    let action = frame.render(FrameEvent::SwapchainRecreated {
        info: SwapchainInfo { width: 800, height: 600, format: 50, sample_count: 1 },
    });
    assert_eq!(action, FrameAction::Finish(FrameOutcome::Fatal));
    assert_eq!(frame.swapchain(), swapchain());
    let mut frame = begun();
    frame.render(FrameEvent::RenderFailed { error: SwapchainError::OutOfDate, surface_changed: false });
    let action = frame.render(FrameEvent::SwapchainRecreated {
        info: SwapchainInfo { width: 800, height: 600, format: 44, sample_count: 4 },
    });
    assert_eq!(action, FrameAction::Finish(FrameOutcome::Fatal));
}

#[test]
fn a_failed_recreation_and_a_failed_second_attempt_drop_the_frame() {
    let mut frame = begun();
    frame.render(FrameEvent::RenderFailed { error: SwapchainError::Other, surface_changed: false });
    assert_eq!(frame.render(FrameEvent::RecreationFailed), FrameAction::Finish(FrameOutcome::Dropped));
    let mut frame = begun();
    frame.render(FrameEvent::RenderFailed { error: SwapchainError::Other, surface_changed: false });
    assert_eq!(frame.render(FrameEvent::SwapchainRecreated { info: swapchain() }), FrameAction::RenderAgain);
    assert_eq!(frame.phase(), FramePhase::Retrying);
    let action = frame.render(FrameEvent::RenderFailed { error: SwapchainError::SurfaceLost, surface_changed: true });
    assert_eq!(action, FrameAction::Finish(FrameOutcome::Dropped));
}

#[test]
fn reports_that_do_not_fit_the_phase_are_fatal() {
    let mut frame = begun();
    assert_eq!(frame.render(FrameEvent::RecreationFailed), FrameAction::Finish(FrameOutcome::Fatal));
    assert_eq!(frame.render(FrameEvent::RenderSucceeded), FrameAction::Finish(FrameOutcome::Fatal));
    let mut frame = begun();
    frame.render(FrameEvent::RenderFailed { error: SwapchainError::Other, surface_changed: false });
    assert_eq!(frame.render(FrameEvent::RenderSucceeded), FrameAction::Finish(FrameOutcome::Fatal));
    let mut frame = begun();
    frame.render(FrameEvent::RenderFailed { error: SwapchainError::Other, surface_changed: false });
    frame.render(FrameEvent::SwapchainRecreated { info: swapchain() });
    assert_eq!(
        frame.render(FrameEvent::SwapchainRecreated { info: swapchain() }),
        FrameAction::Finish(FrameOutcome::Fatal)
    );
}

#[test]
fn the_simulation_is_held_back_until_frames_are_drained() {
    let mut renderer = Renderer::new(visible());
    assert!(!renderer.is_saturated());
    assert!(matches!(renderer.end_frame(), RendererCommand::EndFrame));
    assert!(!renderer.is_saturated());
    renderer.end_frame();
    assert!(renderer.is_saturated());
    renderer.end_frame();
    assert!(renderer.is_saturated());
    assert_eq!(renderer.dec_queued_frames_counter(), 3);
    assert!(renderer.is_saturated());
    assert_eq!(renderer.dec_queued_frames_counter(), 2);
    assert!(!renderer.is_saturated());
    assert_eq!(renderer.dec_queued_frames_counter(), 1);
    assert!(!renderer.is_saturated());
    renderer.end_frame();
    renderer.end_frame();
    assert!(renderer.is_saturated());
}

#[test]
fn the_count_goes_round_at_zero() {
    let mut renderer = Renderer::new(visible());
    assert_eq!(renderer.dec_queued_frames_counter(), 0);
    assert!(renderer.is_saturated());
    renderer.end_frame();
    assert!(!renderer.is_saturated());
}

#[test]
fn a_stopped_renderer_stays_stopped() {
    let mut renderer = Renderer::new(WindowState::Minimized);
    assert!(renderer.is_running());
    assert_eq!(renderer.window_dimensions(), (0, 0));
    assert_eq!(renderer.aspect_ratio(), (0, 1));
    renderer.set_window_state(WindowState::FullScreen { width: 10, height: 0 });
    assert_eq!(renderer.aspect_ratio(), (10, 1));
    renderer.set_window_state(WindowState::FullScreen { width: 10, height: 20 });
    assert_eq!(renderer.aspect_ratio(), (10, 20));
    assert_eq!(renderer.window_state(), WindowState::FullScreen { width: 10, height: 20 });
    assert_eq!(renderer.window_dimensions(), (10, 20));
    renderer.set_window_state(visible());
    assert_eq!(renderer.window_dimensions(), (800, 600));
    renderer.set_window_state(WindowState::Exited);
    assert_eq!(renderer.window_dimensions(), (0, 0));
    renderer.stop();
    assert!(!renderer.is_running());
    renderer.end_frame();
    assert!(!renderer.is_running());
}

#[test]
fn messages_carry_what_they_were_made_with() {
    let renderer = Renderer::new(visible());
    let transform = Matrix4::identity();
    match renderer.register_static_renderable(4, transform, "a/b.mdl".to_string(), true, false, true) {
        RendererCommand::RegisterStatic { entity, transform: t, model_path, receive_shadows, cast_shadows, can_move } => {
            assert_eq!(entity, 4);
            assert_eq!(t, transform);
            assert_eq!(model_path, "a/b.mdl");
            assert!(receive_shadows && !cast_shadows && can_move);
        }
        other => panic!("{:?}", other),
    }
    assert!(matches!(renderer.unregister_static_renderable(4), RendererCommand::UnregisterStatic(4)));
    assert!(matches!(
        renderer.register_point_light(5, transform, 7),
        RendererCommand::RegisterPointLight { entity: 5, intensity: 7, .. }
    ));
    assert!(matches!(renderer.unregister_point_light(5), RendererCommand::UnregisterPointLight(5)));
    assert!(matches!(
        renderer.update_camera_transform(transform, 9),
        RendererCommand::UpdateCameraTransform { fov: 9, .. }
    ));
    assert!(matches!(
        renderer.update_transform(6, transform),
        RendererCommand::UpdateTransform { entity: 6, .. }
    ));
}

#[test]
fn a_tick_is_due_when_its_interval_has_passed() {
    assert!(!Scene::tick_due(DeltaTime(199_999_999), 5));
    assert!(Scene::tick_due(DeltaTime(200_000_000), 5));
    assert!(!Scene::tick_due(DeltaTime(333_999_999), 3));
    assert!(Scene::tick_due(DeltaTime(334_000_000), 3));
    assert!(Scene::tick_due(DeltaTime(1_000_000), 1000));
    assert!(Scene::tick_due(DeltaTime(1_000_000), 2000));
    assert!(!Scene::tick_due(DeltaTime(999_999), 2000));
    assert_eq!(DeltaTime(1_999_999).millis(), 1);
    assert_eq!(Scene::next_tick(Tick(7)), Tick(8));
    assert_eq!(Scene::next_tick(Tick(u64::MAX)), Tick(0));
    assert!(FilterAll {}.matches_layout());
}

#[test]
fn waiting_goes_from_spinning_to_yielding_to_sleeping() {
    assert_eq!(Scene::wait_step(0), WaitStep::Spin);
    assert_eq!(Scene::wait_step(128), WaitStep::Spin);
    assert_eq!(Scene::wait_step(129), WaitStep::Yield);
    assert_eq!(Scene::wait_step(1024), WaitStep::Yield);
    assert_eq!(Scene::wait_step(1025), WaitStep::Sleep);
    assert_eq!(Scene::wait_step(u32::MAX), WaitStep::Sleep);
    assert_eq!(Scene::next_spin(5), 6);
    assert_eq!(Scene::next_spin(u32::MAX), u32::MAX);
}
