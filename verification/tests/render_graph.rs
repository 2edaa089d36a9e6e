use sourcerenderer::desktop_renderer::DesktopRenderer;
use sourcerenderer::frame::{SwapchainError, SwapchainInfo};
use sourcerenderer::render_graph::{
    DepthStencil, ExtentPolicy, GraphCommand, GraphError, LoadAction, OutputKind, PassInfo, PassOutput,
    PassType, RenderGraph, StoreAction, SubpassInfo,
};

fn swapchain() -> SwapchainInfo {
    SwapchainInfo { width: 800, height: 600, format: 44, sample_count: 1 }
}

fn subpass(inputs: &[&str], outputs: &[&str]) -> SubpassInfo {
    SubpassInfo {
        inputs: inputs.iter().map(|s| s.to_string()).collect::<Vec<String>>(),
        outputs: outputs
            .iter()
            .map(|s| PassOutput { name: s.to_string(), kind: OutputKind::RenderTarget })
            .collect::<Vec<PassOutput>>(),
        depth_stencil: None,
    }
}

fn pass(name: &str, inputs: &[&str], outputs: &[&str]) -> PassInfo {
    PassInfo { name: name.to_string(), pass_type: PassType::Graphics, subpasses: vec![subpass(inputs, outputs)] }
}

fn externals(names: &[&str]) -> Vec<String> {
    names.iter().map(|s| s.to_string()).collect::<Vec<String>>()
}

#[test]
fn passes_run_after_the_passes_they_read_from() {
    let passes = vec![
        pass("present", &["lit"], &["backbuffer"]),
        pass("lighting", &["albedo", "depth", "camera"], &["lit"]),
        pass("geometry", &["camera"], &["albedo", "depth"]),
    ];
    let graph = RenderGraph::compile(&passes, &externals(&["camera"]), swapchain()).unwrap();
    assert_eq!(graph.pass_count(), 3);
    assert_eq!(graph.execution_order(), &vec![2, 1, 0]);
    assert_eq!(graph.dependencies_of(0), &vec![1]);
    assert_eq!(graph.dependencies_of(1), &vec![2, 2]);
    assert!(graph.dependencies_of(2).is_empty());
    assert_eq!(graph.swapchain(), swapchain());
    assert_eq!(
        graph.render(),
        vec![
            GraphCommand::Execute { pass: 2 },
            GraphCommand::Barrier { producer: 2, consumer: 1 },
            GraphCommand::Barrier { producer: 2, consumer: 1 },
            GraphCommand::Execute { pass: 1 },
            GraphCommand::Barrier { producer: 1, consumer: 0 },
            GraphCommand::Execute { pass: 0 },
        ]
    );
    assert_eq!(graph.render(), graph.render());
}

#[test]
fn independent_passes_keep_the_order_in_which_they_were_declared() {
    let passes = vec![pass("a", &[], &["x"]), pass("b", &[], &["y"]), pass("c", &["x", "y"], &["z"]), pass("d", &[], &["w"])];
    let graph = RenderGraph::compile(&passes, &externals(&[]), swapchain()).unwrap();
    assert_eq!(graph.execution_order(), &vec![0, 1, 2, 3]);
    let none = RenderGraph::compile(&vec![], &externals(&[]), swapchain()).unwrap();
    assert_eq!(none.pass_count(), 0);
    assert!(none.render().is_empty());
}

#[test]
fn a_later_subpass_may_read_what_an_earlier_one_of_its_pass_wrote() {
    let passes = vec![PassInfo {
        name: "deferred".to_string(),
        pass_type: PassType::Graphics,
        subpasses: vec![
            SubpassInfo {
                inputs: vec![],
                outputs: vec![PassOutput { name: "gbuffer".to_string(), kind: OutputKind::RenderTarget }],
                depth_stencil: Some(DepthStencil {
                    format: 126,
                    sample_count: 1,
                    extent: ExtentPolicy::Swapchain,
                    depth_load: LoadAction::Clear,
                    depth_store: StoreAction::Store,
                    stencil_load: LoadAction::DontCare,
                    stencil_store: StoreAction::DontCare,
                }),
            },
            subpass(&["gbuffer"], &["backbuffer"]),
        ],
    }];
    let graph = RenderGraph::compile(&passes, &externals(&[]), swapchain()).unwrap();
    assert!(graph.dependencies_of(0).is_empty());
    assert_eq!(graph.render(), vec![GraphCommand::Execute { pass: 0 }]);
}

#[test]
fn a_name_that_nothing_declares_is_refused() {
    let passes = vec![pass("a", &[], &["x"]), pass("b", &["x", "camera", "missing"], &["y"])];
    let error = RenderGraph::compile(&passes, &externals(&["camera"]), swapchain()).unwrap_err();
    assert_eq!(error, GraphError::UndeclaredResource { pass: 1, subpass: 0, input: 2 });
    let error = RenderGraph::compile(&passes, &externals(&["missing"]), swapchain()).unwrap_err();
    assert_eq!(error, GraphError::UndeclaredResource { pass: 1, subpass: 0, input: 1 });
    assert!(RenderGraph::compile(&passes, &externals(&["camera", "missing"]), swapchain()).is_ok());
}

#[test]
fn two_passes_of_one_name_are_refused() {
    let passes = vec![pass("a", &[], &["x"]), pass("b", &[], &["y"]), pass("a", &["nothing"], &["z"])];
    let error = RenderGraph::compile(&passes, &externals(&[]), swapchain()).unwrap_err();
    assert_eq!(error, GraphError::DuplicatePassName { first: 0, second: 2 });
}

#[test]
fn the_first_two_passes_of_one_name_are_named() {
    let passes = vec![
        pass("a", &[], &["x"]),
        pass("b", &[], &["y"]),
        pass("c", &[], &["z"]),
        pass("b", &[], &["v"]),
        pass("a", &[], &["w"]),
        pass("b", &[], &["u"]),
    ];
    let error = RenderGraph::compile(&passes, &externals(&[]), swapchain()).unwrap_err();
    assert_eq!(error, GraphError::DuplicatePassName { first: 1, second: 3 });
}

#[test]
fn the_first_input_that_names_nothing_declared_is_named() {
    let passes = vec![
        pass("a", &["camera"], &["x"]),
        PassInfo {
            name: "b".to_string(),
            pass_type: PassType::Graphics,
            subpasses: vec![subpass(&["x"], &["y"]), subpass(&["y", "lost", "gone"], &["z"])],
        },
        pass("c", &["nothing"], &["w"]),
    ];
    let error = RenderGraph::compile(&passes, &externals(&["camera"]), swapchain()).unwrap_err();
    assert_eq!(error, GraphError::UndeclaredResource { pass: 1, subpass: 1, input: 1 });
}

#[test]
fn the_desktop_path_waits_for_the_passes_that_write_what_it_reads() {
    let renderer = DesktopRenderer::new(swapchain());
    let expected: Vec<Vec<usize>> = vec![
        vec![],
        vec![0],
        vec![1, 0],
        vec![0, 0],
        vec![3, 3, 0],
        vec![3, 2, 0, 4],
        vec![5, 3],
        vec![6],
        vec![7],
    ];
    assert_eq!(renderer.graph().pass_count(), 9);
    for (pass, waits_for) in expected.iter().enumerate() {
        assert_eq!(renderer.graph().dependencies_of(pass), waits_for);
    }
}

#[test]
fn passes_that_wait_for_each_other_are_refused() {
    let passes = vec![pass("a", &["y"], &["x"]), pass("b", &["x"], &["y"]), pass("c", &[], &["z"])];
    let error = RenderGraph::compile(&passes, &externals(&[]), swapchain()).unwrap_err();
    assert_eq!(error, GraphError::CyclicDependency);
}

#[test]
fn an_external_resource_hides_an_output_of_the_same_name() {
    let passes = vec![pass("a", &["x"], &["y"]), pass("b", &[], &["x"])];
    let graph = RenderGraph::compile(&passes, &externals(&["x"]), swapchain()).unwrap();
    assert_eq!(graph.execution_order(), &vec![0, 1]);
    let graph = RenderGraph::compile(&passes, &externals(&[]), swapchain()).unwrap();
    assert_eq!(graph.execution_order(), &vec![1, 0]);
}

#[test]
fn a_graph_takes_a_swapchain_of_another_size_but_not_of_another_format() {
    let passes = vec![pass("a", &[], &["x"])];
    let graph = RenderGraph::compile(&passes, &externals(&[]), swapchain()).unwrap();
    let larger = SwapchainInfo { width: 1920, height: 1080, format: 44, sample_count: 1 };
    let graph = graph.recreate(larger).unwrap();
    assert_eq!(graph.swapchain(), larger);
    assert_eq!(graph.execution_order(), &vec![0]);
    let other = SwapchainInfo { width: 1920, height: 1080, format: 37, sample_count: 1 };
    assert_eq!(graph.recreate(other).unwrap_err(), GraphError::SwapchainMismatch);
    let graph = RenderGraph::compile(&passes, &externals(&[]), swapchain()).unwrap();
    let samples = SwapchainInfo { width: 800, height: 600, format: 44, sample_count: 4 };
    assert_eq!(graph.recreate(samples).unwrap_err(), GraphError::SwapchainMismatch);
}

#[test]
fn the_desktop_path_runs_its_passes_in_the_order_they_are_declared() {
    let passes = DesktopRenderer::passes();
    assert_eq!(
        passes.iter().map(|p| p.name.as_str()).collect::<Vec<&str>>(),
        vec!["late_latching", "clustering", "light_binning", "prepass", "ssao", "geometry", "taa", "sharpen", "blit"]
    );
    assert_eq!(DesktopRenderer::external_resources(), vec!["primary_camera".to_string(), "lightmap".to_string()]);
    let mut renderer = DesktopRenderer::new(swapchain());
    assert_eq!(renderer.graph().execution_order(), &vec![0, 1, 2, 3, 4, 5, 6, 7, 8]);
    assert_eq!(renderer.frame(), 0);
    let commands = renderer.render(true).unwrap();
    let executed = commands
        .iter()
        .filter_map(|c| match c {
            GraphCommand::Execute { pass } => Some(*pass),
            GraphCommand::Barrier { .. } => None,
        })
        .collect::<Vec<usize>>();
    assert_eq!(executed, vec![0, 1, 2, 3, 4, 5, 6, 7, 8]);
    assert_eq!(commands.last(), Some(&GraphCommand::Execute { pass: 8 }));
    assert_eq!(commands[commands.len() - 2], GraphCommand::Barrier { producer: 7, consumer: 8 });
    assert_eq!(renderer.frame(), 1);
    assert_eq!(renderer.render(false), Err(SwapchainError::Other));
    assert_eq!(renderer.frame(), 2);
}

#[test]
fn the_desktop_path_refuses_a_swapchain_of_another_format() {
    let renderer = DesktopRenderer::new(swapchain());
    let resized = SwapchainInfo { width: 100, height: 50, format: 44, sample_count: 1 };
    let renderer = renderer.on_swapchain_changed(resized).unwrap();
    assert_eq!(renderer.graph().swapchain(), resized);
    let other = SwapchainInfo { width: 100, height: 50, format: 45, sample_count: 1 };
    assert_eq!(renderer.on_swapchain_changed(other).unwrap_err(), GraphError::SwapchainMismatch);
}
