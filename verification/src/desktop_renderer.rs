//! The render path for desktop machines: its passes, what each reads and
//! writes, and the frame it records.

use crate::frame::{SwapchainError, SwapchainInfo};
use crate::render_graph::{
    declared_in_order,
    dependencies,
    dependency_at,
    frame_commands,
    has_output,
    input_in_range,
    iota,
    is_external,
    law_declared_order_is_kept,
    lemma_producer_of,
    names_unique,
    pass_dependencies,
    producer_of,
    subpass_dependencies,
    GraphCommand,
    GraphError,
    OutputKind,
    PassInfo,
    PassOutput,
    PassType,
    RenderGraph,
    SubpassInfo,
};
use vstd::prelude::*;

verus! {

/// The views of the texts.
pub open spec fn views(list: Seq<&str>) -> Seq<Seq<char>> {
    list.map_values(|s: &str| s@)
}

/// The names as owned texts.
fn names(list: &[&str]) -> (owned: Vec<String>)
    ensures
        texts(owned@) == views(list@),
{
    let mut owned: Vec<String> = Vec::new();
    let mut i: usize = 0;
    while i < list.len()
        invariant
            i <= list@.len(),
            owned@.len() == i,
            forall|k: int| 0 <= k < i ==> (#[trigger] owned@[k])@ == list@[k]@,
        decreases list@.len() - i,
    {
        owned.push(list[i].to_owned());
        i = i + 1;
    }
    proof {
        assert(texts(owned@) =~= views(list@));
    }
    owned
}

/// Outputs of the given kind under the given names.
fn outputs(list: &[&str], kind: OutputKind) -> (made: Vec<PassOutput>)
    ensures
        output_names(made@) == views(list@),
        forall|i: int| 0 <= i < made@.len() ==> (#[trigger] made@[i]).kind == kind,
{
    let mut made: Vec<PassOutput> = Vec::new();
    let mut i: usize = 0;
    while i < list.len()
        invariant
            i <= list@.len(),
            made@.len() == i,
            forall|k: int|
                0 <= k < i ==> (#[trigger] made@[k]).name@ == list@[k]@ && made@[k].kind == kind,
        decreases list@.len() - i,
    {
        made.push(PassOutput { name: list[i].to_owned(), kind });
        i = i + 1;
    }
    proof {
        assert(output_names(made@) =~= views(list@));
    }
    made
}

/// The pass `name` of one step that reads `inputs` and writes `outputs`,
/// which are of the kind `kind`.
fn pass(name: &str, pass_type: PassType, inputs: &[&str], outputs_of: &[&str], kind: OutputKind) -> (info:
    PassInfo)
    ensures
        pass_is(info, name@, pass_type, views(inputs@), views(outputs_of@)),
        forall|o: int|
            0 <= o < info.subpasses@[0].outputs@.len() ==> (
            #[trigger] info.subpasses@[0].outputs@[o]).kind == kind,
{
    let mut subpasses: Vec<SubpassInfo> = Vec::new();
    subpasses.push(
        SubpassInfo { inputs: names(inputs), outputs: outputs(outputs_of, kind), depth_stencil: None },
    );
    PassInfo { name: name.to_owned(), pass_type, subpasses }
}

/// The texts of the names.
pub open spec fn texts(list: Seq<String>) -> Seq<Seq<char>> {
    list.map_values(|s: String| s@)
}

/// The names of the outputs.
pub open spec fn output_names(list: Seq<PassOutput>) -> Seq<Seq<char>> {
    list.map_values(|o: PassOutput| o.name@)
}

/// Whether `info` is the pass `name` of one step that reads `inputs` and
/// writes `outputs`.
pub open spec fn pass_is(
    info: PassInfo,
    name: Seq<char>,
    pass_type: PassType,
    inputs: Seq<Seq<char>>,
    outputs: Seq<Seq<char>>,
) -> bool {
    &&& info.name@ == name
    &&& info.pass_type == pass_type
    &&& info.subpasses@.len() == 1
    &&& texts(info.subpasses@[0].inputs@) == inputs
    &&& output_names(info.subpasses@[0].outputs@) == outputs
    &&& info.subpasses@[0].depth_stencil is None
}

/// Whether `passes` are the passes of the desktop path.
pub open spec fn desktop_passes(passes: Seq<PassInfo>) -> bool {
    &&& passes.len() == 9
    &&& pass_is(
        passes[0],
        "late_latching"@,
        PassType::Compute,
        seq!["primary_camera"@],
        seq!["camera"@, "camera_history"@],
    )
    &&& pass_is(passes[1], "clustering"@, PassType::Compute, seq!["camera"@], seq!["clusters"@])
    &&& pass_is(
        passes[2],
        "light_binning"@,
        PassType::Compute,
        seq!["clusters"@, "camera"@],
        seq!["light_bitmask"@],
    )
    &&& pass_is(
        passes[3],
        "prepass"@,
        PassType::Graphics,
        seq!["camera"@, "camera_history"@],
        seq!["normals"@, "depth"@, "motion"@],
    )
    &&& pass_is(
        passes[4],
        "ssao"@,
        PassType::Compute,
        seq!["normals"@, "depth"@, "camera"@],
        seq!["ssao"@],
    )
    &&& pass_is(
        passes[5],
        "geometry"@,
        PassType::Graphics,
        seq!["lightmap"@, "depth"@, "light_bitmask"@, "camera"@, "ssao"@],
        seq!["geometry"@],
    )
    &&& pass_is(
        passes[6],
        "taa"@,
        PassType::Compute,
        seq!["geometry"@, "motion"@],
        seq!["taa"@],
    )
    &&& pass_is(passes[7], "sharpen"@, PassType::Compute, seq!["taa"@], seq!["sharpened"@])
    &&& pass_is(passes[8], "blit"@, PassType::Graphics, seq!["sharpened"@], seq!["backbuffer"@])
}

/// Whether `externals` are the resources that the desktop path is handed
/// from outside.
pub open spec fn desktop_externals(externals: Seq<String>) -> bool {
    texts(externals) == seq!["primary_camera"@, "lightmap"@]
}

/// A name that pass `j` writes is produced by pass `j` or by one before
/// it.
pub proof fn lemma_produced_by(passes: Seq<PassInfo>, name: Seq<char>, j: int, o: int)
    requires
        0 <= j < passes.len(),
        passes[j].subpasses@.len() == 1,
        0 <= o < output_names(passes[j].subpasses@[0].outputs@).len(),
        output_names(passes[j].subpasses@[0].outputs@)[o] == name,
    ensures
        producer_of(passes, name, 0) <= j,
{
    lemma_producer_of(passes, name, 0);
    assert(passes[j].subpasses@[0].outputs@[o].name@ == name);
}

/// The passes of the desktop path are declared in an order in which they
/// can run, and no two of them have one name.
pub proof fn lemma_desktop_passes_compile(passes: Seq<PassInfo>, externals: Seq<String>)
    requires
        desktop_passes(passes),
        desktop_externals(externals),
    ensures
        names_unique(passes),
        declared_in_order(passes, externals),
{
    reveal_strlit("late_latching");
    reveal_strlit("clustering");
    reveal_strlit("light_binning");
    reveal_strlit("prepass");
    reveal_strlit("ssao");
    reveal_strlit("geometry");
    reveal_strlit("taa");
    reveal_strlit("sharpen");
    reveal_strlit("blit");
    assert(passes[0].name@.len() == 13 && passes[0].name@[1] == 'a');
    assert(passes[1].name@.len() == 10);
    assert(passes[2].name@.len() == 13 && passes[2].name@[1] == 'i');
    assert(passes[3].name@.len() == 7 && passes[3].name@[0] == 'p');
    assert(passes[4].name@.len() == 4 && passes[4].name@[0] == 's');
    assert(passes[5].name@.len() == 8);
    assert(passes[6].name@.len() == 3);
    assert(passes[7].name@.len() == 7 && passes[7].name@[0] == 's');
    assert(passes[8].name@.len() == 4 && passes[8].name@[0] == 'b');
    assert forall|a: int, b: int| 0 <= a < b < passes.len() implies (#[trigger] passes[a]).name@ != (
    #[trigger] passes[b]).name@ by {
        if passes[a].name@.len() == passes[b].name@.len() {
            if a == 0 {
                assert(b == 2);
            } else if a == 3 {
                assert(b == 7);
            } else {
                assert(a == 4 && b == 8);
            }
        }
    }
    assert(texts(externals).len() == 2);
    assert(externals.len() == 2);
    assert(texts(externals)[0] == externals[0]@);
    assert(texts(externals)[1] == externals[1]@);
    assert(externals[0]@ == "primary_camera"@);
    assert(externals[1]@ == "lightmap"@);
    assert(is_external(externals, "primary_camera"@));
    assert(is_external(externals, "lightmap"@));
    lemma_produced_by(passes, "camera"@, 0, 0);
    lemma_produced_by(passes, "camera_history"@, 0, 1);
    lemma_produced_by(passes, "clusters"@, 1, 0);
    lemma_produced_by(passes, "light_bitmask"@, 2, 0);
    lemma_produced_by(passes, "normals"@, 3, 0);
    lemma_produced_by(passes, "depth"@, 3, 1);
    lemma_produced_by(passes, "motion"@, 3, 2);
    lemma_produced_by(passes, "ssao"@, 4, 0);
    lemma_produced_by(passes, "geometry"@, 5, 0);
    lemma_produced_by(passes, "taa"@, 6, 0);
    lemma_produced_by(passes, "sharpened"@, 7, 0);
    assert forall|i: int, s: int, k: int| #[trigger] input_in_range(passes, i, s, k) implies is_external(
        externals,
        passes[i].subpasses@[s].inputs@[k]@,
    ) || producer_of(passes, passes[i].subpasses@[s].inputs@[k]@, 0) <= i by {
        let name = passes[i].subpasses@[s].inputs@[k]@;
        assert(s == 0);
        assert(texts(passes[i].subpasses@[0].inputs@).len() == passes[i].subpasses@[0].inputs@.len());
        assert(name == texts(passes[i].subpasses@[0].inputs@)[k]);
    }
}

/// What each pass of the desktop path waits for, input after input: the
/// pass that writes what the input names, unless the name is handed in
/// from outside.
pub open spec fn desktop_dependencies() -> Seq<Seq<int>> {
    seq![
        Seq::<int>::empty(),
        seq![0int],
        seq![1int, 0int],
        seq![0int, 0int],
        seq![3int, 3int, 0int],
        seq![3int, 2int, 0int, 4int],
        seq![5int, 3int],
        seq![6int],
        seq![7int],
    ]
}

/// A pass of one step writes a name if and only if the name is among the
/// names of its outputs.
pub proof fn lemma_writes(pass: PassInfo, name: Seq<char>)
    requires
        pass.subpasses@.len() == 1,
    ensures
        has_output(pass, name) <==> output_names(pass.subpasses@[0].outputs@).contains(name),
{
    let outs = pass.subpasses@[0].outputs@;
    let names = output_names(outs);
    if has_output(pass, name) {
        let (s, o) = choose|s: int, o: int|
            0 <= s < pass.subpasses@.len() && 0 <= o < pass.subpasses@[s].outputs@.len()
                && #[trigger] pass.subpasses@[s].outputs@[o].name@ == name;
        assert(names[o] == name);
    }
    if names.contains(name) {
        let o = choose|o: int| 0 <= o < names.len() && names[o] == name;
        assert(outs[o].name@ == name);
    }
}

/// The names of the desktop path differ from one another: no two of them
/// have one length and one first letter.
pub proof fn lemma_desktop_names()
    ensures
        "primary_camera"@.len() == 14 && "primary_camera"@[0] == 'p',
        "lightmap"@.len() == 8 && "lightmap"@[0] == 'l',
        "camera"@.len() == 6 && "camera"@[0] == 'c',
        "camera_history"@.len() == 14 && "camera_history"@[0] == 'c',
        "clusters"@.len() == 8 && "clusters"@[0] == 'c',
        "light_bitmask"@.len() == 13 && "light_bitmask"@[0] == 'l',
        "normals"@.len() == 7 && "normals"@[0] == 'n',
        "depth"@.len() == 5 && "depth"@[0] == 'd',
        "motion"@.len() == 6 && "motion"@[0] == 'm',
        "ssao"@.len() == 4 && "ssao"@[0] == 's',
        "geometry"@.len() == 8 && "geometry"@[0] == 'g',
        "taa"@.len() == 3 && "taa"@[0] == 't',
        "sharpened"@.len() == 9 && "sharpened"@[0] == 's',
        "backbuffer"@.len() == 10 && "backbuffer"@[0] == 'b',
{
    reveal_strlit("primary_camera");
    reveal_strlit("lightmap");
    reveal_strlit("camera");
    reveal_strlit("camera_history");
    reveal_strlit("clusters");
    reveal_strlit("light_bitmask");
    reveal_strlit("normals");
    reveal_strlit("depth");
    reveal_strlit("motion");
    reveal_strlit("ssao");
    reveal_strlit("geometry");
    reveal_strlit("taa");
    reveal_strlit("sharpened");
    reveal_strlit("backbuffer");
}

/// Which pass of the desktop path writes each name that a pass reads,
/// and which of those names are handed in from outside.
pub proof fn lemma_desktop_producers(passes: Seq<PassInfo>, externals: Seq<String>)
    requires
        desktop_passes(passes),
        desktop_externals(externals),
    ensures
        is_external(externals, "primary_camera"@),
        is_external(externals, "lightmap"@),
        !is_external(externals, "camera"@) && producer_of(passes, "camera"@, 0) == 0,
        !is_external(externals, "camera_history"@) && producer_of(passes, "camera_history"@, 0)
            == 0,
        !is_external(externals, "clusters"@) && producer_of(passes, "clusters"@, 0) == 1,
        !is_external(externals, "light_bitmask"@) && producer_of(passes, "light_bitmask"@, 0)
            == 2,
        !is_external(externals, "normals"@) && producer_of(passes, "normals"@, 0) == 3,
        !is_external(externals, "depth"@) && producer_of(passes, "depth"@, 0) == 3,
        !is_external(externals, "motion"@) && producer_of(passes, "motion"@, 0) == 3,
        !is_external(externals, "ssao"@) && producer_of(passes, "ssao"@, 0) == 4,
        !is_external(externals, "geometry"@) && producer_of(passes, "geometry"@, 0) == 5,
        !is_external(externals, "taa"@) && producer_of(passes, "taa"@, 0) == 6,
        !is_external(externals, "sharpened"@) && producer_of(passes, "sharpened"@, 0) == 7,
{
    lemma_desktop_names();
    assert(texts(externals).len() == 2);
    assert(externals.len() == 2);
    assert(texts(externals)[0] == externals[0]@);
    assert(texts(externals)[1] == externals[1]@);
    assert(externals[0]@ == "primary_camera"@);
    assert(externals[1]@ == "lightmap"@);
    lemma_written_first(passes, "camera"@, 0, 0);
    lemma_written_first(passes, "camera_history"@, 0, 1);
    lemma_written_first(passes, "clusters"@, 1, 0);
    lemma_written_first(passes, "light_bitmask"@, 2, 0);
    lemma_written_first(passes, "normals"@, 3, 0);
    lemma_written_first(passes, "depth"@, 3, 1);
    lemma_written_first(passes, "motion"@, 3, 2);
    lemma_written_first(passes, "ssao"@, 4, 0);
    lemma_written_first(passes, "geometry"@, 5, 0);
    lemma_written_first(passes, "taa"@, 6, 0);
    lemma_written_first(passes, "sharpened"@, 7, 0);
}

/// A name that output `o` of pass `j` has, and that no pass before `j`
/// writes, is produced by pass `j`.
pub proof fn lemma_written_first(passes: Seq<PassInfo>, name: Seq<char>, j: int, o: int)
    requires
        0 <= j < passes.len(),
        forall|p: int| 0 <= p <= j ==> (#[trigger] passes[p]).subpasses@.len() == 1,
        0 <= o < output_names(passes[j].subpasses@[0].outputs@).len(),
        output_names(passes[j].subpasses@[0].outputs@)[o] == name,
        forall|p: int|
            0 <= p < j ==> !output_names((#[trigger] passes[p]).subpasses@[0].outputs@).contains(name),
    ensures
        producer_of(passes, name, 0) == j,
{
    lemma_producer_of(passes, name, 0);
    lemma_produced_by(passes, name, j, o);
    let producer = producer_of(passes, name, 0);
    if producer < j {
        lemma_writes(passes[producer], name);
    }
}

/// The passes of the desktop path wait for one another as
/// [`desktop_dependencies`] says.
pub proof fn lemma_desktop_dependencies(passes: Seq<PassInfo>, externals: Seq<String>)
    requires
        desktop_passes(passes),
        desktop_externals(externals),
    ensures
        dependencies(passes, externals) == desktop_dependencies(),
{
    lemma_desktop_producers(passes, externals);
    reveal_with_fuel(subpass_dependencies, 6);
    reveal_with_fuel(pass_dependencies, 2);
    let all = dependencies(passes, externals);
    assert(all.len() == 9);
    assert(all[0] == desktop_dependencies()[0]) by {
        let inputs = passes[0].subpasses@[0].inputs@;
        assert(texts(inputs).len() == 1);
        assert(inputs[0]@ == texts(inputs)[0]);
        assert(dependency_at(passes, externals, 0, 0, 0) is None);
        assert(pass_dependencies(passes, externals, 0, 1) =~= desktop_dependencies()[0]);
    }
    assert(all[1] == desktop_dependencies()[1]) by {
        let inputs = passes[1].subpasses@[0].inputs@;
        assert(texts(inputs).len() == 1);
        assert(inputs[0]@ == texts(inputs)[0]);
        assert(dependency_at(passes, externals, 1, 0, 0) == Some(0int));
        assert(pass_dependencies(passes, externals, 1, 1) =~= desktop_dependencies()[1]);
    }
    assert(all[2] == desktop_dependencies()[2]) by {
        let inputs = passes[2].subpasses@[0].inputs@;
        assert(texts(inputs).len() == 2);
        assert(inputs[0]@ == texts(inputs)[0]);
        assert(inputs[1]@ == texts(inputs)[1]);
        assert(dependency_at(passes, externals, 2, 0, 0) == Some(1int));
        assert(dependency_at(passes, externals, 2, 0, 1) == Some(0int));
        assert(pass_dependencies(passes, externals, 2, 1) =~= desktop_dependencies()[2]);
    }
    assert(all[3] == desktop_dependencies()[3]) by {
        let inputs = passes[3].subpasses@[0].inputs@;
        assert(texts(inputs).len() == 2);
        assert(inputs[0]@ == texts(inputs)[0]);
        assert(inputs[1]@ == texts(inputs)[1]);
        assert(dependency_at(passes, externals, 3, 0, 0) == Some(0int));
        assert(dependency_at(passes, externals, 3, 0, 1) == Some(0int));
        assert(pass_dependencies(passes, externals, 3, 1) =~= desktop_dependencies()[3]);
    }
    assert(all[4] == desktop_dependencies()[4]) by {
        let inputs = passes[4].subpasses@[0].inputs@;
        assert(texts(inputs).len() == 3);
        assert(inputs[0]@ == texts(inputs)[0]);
        assert(inputs[1]@ == texts(inputs)[1]);
        assert(inputs[2]@ == texts(inputs)[2]);
        assert(dependency_at(passes, externals, 4, 0, 0) == Some(3int));
        assert(dependency_at(passes, externals, 4, 0, 1) == Some(3int));
        assert(dependency_at(passes, externals, 4, 0, 2) == Some(0int));
        assert(pass_dependencies(passes, externals, 4, 1) =~= desktop_dependencies()[4]);
    }
    assert(all[5] == desktop_dependencies()[5]) by {
        let inputs = passes[5].subpasses@[0].inputs@;
        assert(texts(inputs).len() == 5);
        assert(inputs[0]@ == texts(inputs)[0]);
        assert(inputs[1]@ == texts(inputs)[1]);
        assert(inputs[2]@ == texts(inputs)[2]);
        assert(inputs[3]@ == texts(inputs)[3]);
        assert(inputs[4]@ == texts(inputs)[4]);
        assert(dependency_at(passes, externals, 5, 0, 0) is None);
        assert(dependency_at(passes, externals, 5, 0, 1) == Some(3int));
        assert(dependency_at(passes, externals, 5, 0, 2) == Some(2int));
        assert(dependency_at(passes, externals, 5, 0, 3) == Some(0int));
        assert(dependency_at(passes, externals, 5, 0, 4) == Some(4int));
        assert(pass_dependencies(passes, externals, 5, 1) =~= desktop_dependencies()[5]);
    }
    assert(all[6] == desktop_dependencies()[6]) by {
        let inputs = passes[6].subpasses@[0].inputs@;
        assert(texts(inputs).len() == 2);
        assert(inputs[0]@ == texts(inputs)[0]);
        assert(inputs[1]@ == texts(inputs)[1]);
        assert(dependency_at(passes, externals, 6, 0, 0) == Some(5int));
        assert(dependency_at(passes, externals, 6, 0, 1) == Some(3int));
        assert(pass_dependencies(passes, externals, 6, 1) =~= desktop_dependencies()[6]);
    }
    assert(all[7] == desktop_dependencies()[7]) by {
        let inputs = passes[7].subpasses@[0].inputs@;
        assert(texts(inputs).len() == 1);
        assert(inputs[0]@ == texts(inputs)[0]);
        assert(dependency_at(passes, externals, 7, 0, 0) == Some(6int));
        assert(pass_dependencies(passes, externals, 7, 1) =~= desktop_dependencies()[7]);
    }
    assert(all[8] == desktop_dependencies()[8]) by {
        let inputs = passes[8].subpasses@[0].inputs@;
        assert(texts(inputs).len() == 1);
        assert(inputs[0]@ == texts(inputs)[0]);
        assert(dependency_at(passes, externals, 8, 0, 0) == Some(7int));
        assert(pass_dependencies(passes, externals, 8, 1) =~= desktop_dependencies()[8]);
    }
    assert(all =~= desktop_dependencies());
}

/// A desktop render path as a value.
pub struct DesktopRendererView {
    pub dependencies: Seq<Seq<int>>,
    pub order: Seq<int>,
    pub swapchain: SwapchainInfo,
    pub frame: u64,
}

/// The render path for desktop machines.
#[derive(Debug)]
pub struct DesktopRenderer {
    graph: RenderGraph,
    frame: u64,
}

impl View for DesktopRenderer {
    type V = DesktopRendererView;

    closed spec fn view(&self) -> DesktopRendererView {
        DesktopRendererView {
            dependencies: self.graph@.dependencies,
            order: self.graph@.order,
            swapchain: self.graph@.swapchain,
            frame: self.frame,
        }
    }
}

impl DesktopRenderer {
    /// The names of the resources that are handed in from outside: the
    /// camera's buffer and the light map.
    pub fn external_resources() -> (externals: Vec<String>)
        ensures
            desktop_externals(externals@),
    {
        let list: [&str; 2] = ["primary_camera", "lightmap"];
        let externals = names(list.as_slice());
        proof {
            assert(texts(externals@) =~= seq!["primary_camera"@, "lightmap"@]);
        }
        externals
    }

    /// The passes of the path: the camera is latched, the lights are
    /// clustered and binned, depth and normals are laid down, occlusion is
    /// estimated, the geometry is shaded, and the image is smoothed over
    /// time, sharpened and copied to the back buffer.
    pub fn passes() -> (passes: Vec<PassInfo>)
        ensures
            desktop_passes(passes@),
    {
        let mut passes: Vec<PassInfo> = Vec::new();
        let late_latching_in: [&str; 1] = ["primary_camera"];
        let late_latching_out: [&str; 2] = ["camera", "camera_history"];
        proof {
            assert(views(late_latching_in@) =~= seq!["primary_camera"@]);
            assert(views(late_latching_out@) =~= seq!["camera"@, "camera_history"@]);
        }
        passes.push(
            pass(
                "late_latching",
                PassType::Compute,
                late_latching_in.as_slice(),
                late_latching_out.as_slice(),
                OutputKind::Buffer,
            ),
        );
        let clustering_in: [&str; 1] = ["camera"];
        let clustering_out: [&str; 1] = ["clusters"];
        proof {
            assert(views(clustering_in@) =~= seq!["camera"@]);
            assert(views(clustering_out@) =~= seq!["clusters"@]);
        }
        passes.push(
            pass(
                "clustering",
                PassType::Compute,
                clustering_in.as_slice(),
                clustering_out.as_slice(),
                OutputKind::Buffer,
            ),
        );
        let light_binning_in: [&str; 2] = ["clusters", "camera"];
        let light_binning_out: [&str; 1] = ["light_bitmask"];
        proof {
            assert(views(light_binning_in@) =~= seq!["clusters"@, "camera"@]);
            assert(views(light_binning_out@) =~= seq!["light_bitmask"@]);
        }
        passes.push(
            pass(
                "light_binning",
                PassType::Compute,
                light_binning_in.as_slice(),
                light_binning_out.as_slice(),
                OutputKind::Buffer,
            ),
        );
        let prepass_in: [&str; 2] = ["camera", "camera_history"];
        let prepass_out: [&str; 3] = ["normals", "depth", "motion"];
        proof {
            assert(views(prepass_in@) =~= seq!["camera"@, "camera_history"@]);
            assert(views(prepass_out@) =~= seq!["normals"@, "depth"@, "motion"@]);
        }
        passes.push(
            pass(
                "prepass",
                PassType::Graphics,
                prepass_in.as_slice(),
                prepass_out.as_slice(),
                OutputKind::RenderTarget,
            ),
        );
        let ssao_in: [&str; 3] = ["normals", "depth", "camera"];
        let ssao_out: [&str; 1] = ["ssao"];
        proof {
            assert(views(ssao_in@) =~= seq!["normals"@, "depth"@, "camera"@]);
            assert(views(ssao_out@) =~= seq!["ssao"@]);
        }
        passes.push(
            pass(
                "ssao",
                PassType::Compute,
                ssao_in.as_slice(),
                ssao_out.as_slice(),
                OutputKind::RenderTarget,
            ),
        );
        let geometry_in: [&str; 5] = ["lightmap", "depth", "light_bitmask", "camera", "ssao"];
        let geometry_out: [&str; 1] = ["geometry"];
        proof {
            assert(views(geometry_in@) =~= seq!["lightmap"@, "depth"@, "light_bitmask"@, "camera"@, "ssao"@]);
            assert(views(geometry_out@) =~= seq!["geometry"@]);
        }
        passes.push(
            pass(
                "geometry",
                PassType::Graphics,
                geometry_in.as_slice(),
                geometry_out.as_slice(),
                OutputKind::RenderTarget,
            ),
        );
        let taa_in: [&str; 2] = ["geometry", "motion"];
        let taa_out: [&str; 1] = ["taa"];
        proof {
            assert(views(taa_in@) =~= seq!["geometry"@, "motion"@]);
            assert(views(taa_out@) =~= seq!["taa"@]);
        }
        passes.push(
            pass(
                "taa",
                PassType::Compute,
                taa_in.as_slice(),
                taa_out.as_slice(),
                OutputKind::RenderTarget,
            ),
        );
        let sharpen_in: [&str; 1] = ["taa"];
        let sharpen_out: [&str; 1] = ["sharpened"];
        proof {
            assert(views(sharpen_in@) =~= seq!["taa"@]);
            assert(views(sharpen_out@) =~= seq!["sharpened"@]);
        }
        passes.push(
            pass(
                "sharpen",
                PassType::Compute,
                sharpen_in.as_slice(),
                sharpen_out.as_slice(),
                OutputKind::RenderTarget,
            ),
        );
        let blit_in: [&str; 1] = ["sharpened"];
        let blit_out: [&str; 1] = ["backbuffer"];
        proof {
            assert(views(blit_in@) =~= seq!["sharpened"@]);
            assert(views(blit_out@) =~= seq!["backbuffer"@]);
        }
        passes.push(
            pass(
                "blit",
                PassType::Graphics,
                blit_in.as_slice(),
                blit_out.as_slice(),
                OutputKind::Backbuffer,
            ),
        );
        passes
    }

    /// The render path on a swapchain like `swapchain`, with its graph
    /// compiled and no frame rendered. The passes run in the order in
    /// which they are declared, and each waits for the passes that write
    /// what it reads.
    pub fn new(swapchain: SwapchainInfo) -> (renderer: Self)
        ensures
            renderer@.frame == 0,
            renderer@.swapchain == swapchain,
            renderer@.order == iota(9),
            renderer@.dependencies == desktop_dependencies(),
            forall|passes: Seq<PassInfo>, externals: Seq<String>|
                desktop_passes(passes) && desktop_externals(externals) ==> renderer@.dependencies
                    == #[trigger] dependencies(passes, externals),
    {
        let passes = DesktopRenderer::passes();
        let externals = DesktopRenderer::external_resources();
        proof {
            lemma_desktop_passes_compile(passes@, externals@);
            law_declared_order_is_kept(passes@, externals@);
            lemma_desktop_dependencies(passes@, externals@);
            assert forall|others: Seq<PassInfo>, handed: Seq<String>|
                desktop_passes(others) && desktop_externals(handed) implies desktop_dependencies()
                == #[trigger] dependencies(others, handed) by {
                lemma_desktop_dependencies(others, handed);
            }
        }
        match RenderGraph::compile(&passes, &externals, swapchain) {
            Ok(graph) => DesktopRenderer { graph, frame: 0 },
            Err(_) => vstd::pervasive::unreached(),
        }
    }

    /// The compiled graph.
    pub fn graph(&self) -> (graph: &RenderGraph)
        ensures
            graph@.dependencies == self@.dependencies,
            graph@.order == self@.order,
            graph@.swapchain == self@.swapchain,
    {
        &self.graph
    }

    /// Number of frames recorded so far.
    pub fn frame(&self) -> (frame: u64)
        ensures
            frame == self@.frame,
    {
        self.frame
    }

    /// Records a frame: the steps of the graph, in its order. One more
    /// frame counts as recorded, whether or not it reaches the screen.
    /// `back_buffer_ready` says whether the swapchain handed out a back
    /// buffer; without one the frame fails.
    pub fn render(&mut self, back_buffer_ready: bool) -> (result: Result<
        Vec<GraphCommand>,
        SwapchainError,
    >)
        ensures
            final(self)@ == (DesktopRendererView {
                frame: if old(self)@.frame == u64::MAX {
                    0
                } else {
                    (old(self)@.frame + 1) as u64
                },
                ..old(self)@
            }),
            !back_buffer_ready ==> result == Err::<Vec<GraphCommand>, SwapchainError>(
                SwapchainError::Other,
            ),
            back_buffer_ready ==> (result matches Ok(commands) && commands@ == frame_commands(
                old(self)@.dependencies,
                old(self)@.order,
                old(self)@.order.len() as int,
            )),
    {
        let commands = self.graph.render();
        self.frame = self.frame.wrapping_add(1);
        if !back_buffer_ready {
            return Err(SwapchainError::Other);
        }
        Ok(commands)
    }

    /// Takes a recreated swapchain into use. It has to have the format and
    /// the sample count that the graph was built for.
    pub fn on_swapchain_changed(self, swapchain: SwapchainInfo) -> (result: Result<Self, GraphError>)
        ensures
            result is Ok <==> swapchain.format == self@.swapchain.format && swapchain.sample_count
                == self@.swapchain.sample_count,
            result matches Ok(renderer) ==> renderer@ == (DesktopRendererView {
                swapchain,
                ..self@
            }),
            result matches Err(e) ==> e == GraphError::SwapchainMismatch,
    {
        let frame = self.frame;
        match self.graph.recreate(swapchain) {
            Ok(graph) => Ok(DesktopRenderer { graph, frame }),
            Err(e) => Err(e),
        }
    }
}

} // verus!
