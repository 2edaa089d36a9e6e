//! The render graph: passes that name what they read and what they write,
//! compiled once into a fixed order of execution in which every pass comes
//! after the passes whose outputs it reads.
//!
//! A name that a pass reads is either an external resource, handed in by
//! name when the graph is built, or an output of a pass. A name that is
//! neither is a breach of contract, and so are two passes of one name and
//! passes that wait for each other: the graph is not built.

use crate::frame::SwapchainInfo;
use vstd::prelude::*;

verus! {

/// What kind of work a pass does.
#[derive(Clone, Copy, Debug, PartialEq, Eq, Structural)]
pub enum PassType {
    Graphics,
    Compute,
}

/// What becomes of an attachment's content when a pass begins.
#[derive(Clone, Copy, Debug, PartialEq, Eq, Structural)]
pub enum LoadAction {
    DontCare,
    Load,
    Clear,
}

/// What becomes of an attachment's content when a pass ends.
#[derive(Clone, Copy, Debug, PartialEq, Eq, Structural)]
pub enum StoreAction {
    DontCare,
    Store,
}

/// How large an attachment is.
#[derive(Clone, Copy, Debug, PartialEq, Eq, Structural)]
pub enum ExtentPolicy {
    /// As large as the swapchain's images.
    Swapchain,
    /// Of a size of its own.
    Absolute { width: u32, height: u32 },
}

/// The depth and stencil attachment of a subpass.
#[derive(Clone, Copy, Debug, PartialEq, Eq, Structural)]
pub struct DepthStencil {
    pub format: u32,
    pub sample_count: u32,
    pub extent: ExtentPolicy,
    pub depth_load: LoadAction,
    pub depth_store: StoreAction,
    pub stencil_load: LoadAction,
    pub stencil_store: StoreAction,
}

/// What an output is.
#[derive(Clone, Copy, Debug, PartialEq, Eq, Structural)]
pub enum OutputKind {
    RenderTarget,
    Buffer,
    Backbuffer,
}

/// A named output of a subpass.
#[derive(Debug)]
pub struct PassOutput {
    pub name: String,
    pub kind: OutputKind,
}

/// One step of a pass: the names it reads and the outputs it writes.
#[derive(Debug)]
pub struct SubpassInfo {
    pub inputs: Vec<String>,
    pub outputs: Vec<PassOutput>,
    pub depth_stencil: Option<DepthStencil>,
}

/// A pass of the graph. A compute pass has one subpass.
#[derive(Debug)]
pub struct PassInfo {
    pub name: String,
    pub pass_type: PassType,
    pub subpasses: Vec<SubpassInfo>,
}

/// Why a graph was not built.
#[derive(Clone, Copy, Debug, PartialEq, Eq, Structural)]
pub enum GraphError {
    /// Two passes have one name: these are their indices.
    DuplicatePassName { first: usize, second: usize },
    /// A pass reads a name that is neither an external resource nor an
    /// output of a pass.
    UndeclaredResource { pass: usize, subpass: usize, input: usize },
    /// Passes wait for each other.
    CyclicDependency,
    /// The swapchain's format or sample count is not the one that the graph
    /// was built for.
    SwapchainMismatch,
}

/// Whether the pass names a subpass and an input of it.
pub open spec fn input_in_range(passes: Seq<PassInfo>, i: int, s: int, k: int) -> bool {
    &&& 0 <= i < passes.len()
    &&& 0 <= s < passes[i].subpasses@.len()
    &&& 0 <= k < passes[i].subpasses@[s].inputs@.len()
}

/// Whether `pass` has an output of the given name.
pub open spec fn has_output(pass: PassInfo, name: Seq<char>) -> bool {
    exists|s: int, o: int|
        0 <= s < pass.subpasses@.len() && 0 <= o < pass.subpasses@[s].outputs@.len()
            && #[trigger] pass.subpasses@[s].outputs@[o].name@ == name
}

/// The index of the first pass at or after `from` that has an output of
/// the given name, or the number of passes if there is none.
pub open spec fn producer_of(passes: Seq<PassInfo>, name: Seq<char>, from: int) -> int
    decreases passes.len() - from,
{
    if from < 0 || from >= passes.len() {
        passes.len() as int
    } else if has_output(passes[from], name) {
        from
    } else {
        producer_of(passes, name, from + 1)
    }
}

/// Whether an external resource has the given name.
pub open spec fn is_external(externals: Seq<String>, name: Seq<char>) -> bool {
    exists|e: int| 0 <= e < externals.len() && (#[trigger] externals[e])@ == name
}

/// Whether input `k` of subpass `s` of pass `i` names nothing that is
/// declared.
pub open spec fn undeclared_at(
    passes: Seq<PassInfo>,
    externals: Seq<String>,
    i: int,
    s: int,
    k: int,
) -> bool {
    let name = passes[i].subpasses@[s].inputs@[k]@;
    !is_external(externals, name) && producer_of(passes, name, 0) >= passes.len()
}

/// The pass that input `k` of subpass `s` of pass `i` waits for, if it
/// waits for one: the producer of the name, unless the name is external or
/// produced by the pass itself.
pub open spec fn dependency_at(
    passes: Seq<PassInfo>,
    externals: Seq<String>,
    i: int,
    s: int,
    k: int,
) -> Option<int> {
    let name = passes[i].subpasses@[s].inputs@[k]@;
    let producer = producer_of(passes, name, 0);
    if is_external(externals, name) || producer == i || producer >= passes.len() {
        None
    } else {
        Some(producer)
    }
}

/// The passes that the first `upto` inputs of subpass `s` of pass `i` wait
/// for, input after input.
pub open spec fn subpass_dependencies(
    passes: Seq<PassInfo>,
    externals: Seq<String>,
    i: int,
    s: int,
    upto: int,
) -> Seq<int>
    decreases upto,
{
    if upto <= 0 {
        Seq::empty()
    } else {
        let before = subpass_dependencies(passes, externals, i, s, upto - 1);
        match dependency_at(passes, externals, i, s, upto - 1) {
            Some(j) => before.push(j),
            None => before,
        }
    }
}

/// The passes that the first `upto` subpasses of pass `i` wait for, subpass
/// after subpass.
pub open spec fn pass_dependencies(
    passes: Seq<PassInfo>,
    externals: Seq<String>,
    i: int,
    upto: int,
) -> Seq<int>
    decreases upto,
{
    if upto <= 0 {
        Seq::empty()
    } else {
        pass_dependencies(passes, externals, i, upto - 1) + subpass_dependencies(
            passes,
            externals,
            i,
            upto - 1,
            passes[i].subpasses@[upto - 1].inputs@.len() as int,
        )
    }
}

/// For each pass, the passes that it waits for.
pub open spec fn dependencies(passes: Seq<PassInfo>, externals: Seq<String>) -> Seq<Seq<int>> {
    Seq::new(
        passes.len(),
        |i: int| pass_dependencies(passes, externals, i, passes[i].subpasses@.len() as int),
    )
}

/// Whether no two passes have one name.
pub open spec fn names_unique(passes: Seq<PassInfo>) -> bool {
    forall|a: int, b: int|
        0 <= a < b < passes.len() ==> (#[trigger] passes[a]).name@ != (#[trigger] passes[b]).name@
}

/// Whether every name that a pass reads is declared.
pub open spec fn all_declared(passes: Seq<PassInfo>, externals: Seq<String>) -> bool {
    forall|i: int, s: int, k: int| #[trigger]
        input_in_range(passes, i, s, k) ==> !undeclared_at(passes, externals, i, s, k)
}

/// Whether `first` and `second` are the first two passes of one name:
/// the passes before `second` all differ in name, and `first` is the one
/// among them that has the name of `second`.
pub open spec fn first_duplicate(passes: Seq<PassInfo>, first: int, second: int) -> bool {
    &&& 0 <= first < second < passes.len()
    &&& passes[first].name@ == passes[second].name@
    &&& forall|x: int, y: int|
        0 <= x < y < second ==> (#[trigger] passes[x]).name@ != (#[trigger] passes[y]).name@
}

/// Whether the one input comes before the other, by pass, then by
/// subpass, then by its place among the inputs.
pub open spec fn input_before(p: int, a: int, b: int, i: int, s: int, k: int) -> bool {
    p < i || (p == i && (a < s || (a == s && b < k)))
}

/// Whether input `k` of subpass `s` of pass `i` is the first input that
/// names nothing declared.
pub open spec fn first_undeclared(
    passes: Seq<PassInfo>,
    externals: Seq<String>,
    i: int,
    s: int,
    k: int,
) -> bool {
    &&& input_in_range(passes, i, s, k)
    &&& undeclared_at(passes, externals, i, s, k)
    &&& forall|p: int, a: int, b: int| #[trigger]
        input_in_range(passes, p, a, b) && input_before(p, a, b, i, s, k) ==> !undeclared_at(
            passes,
            externals,
            p,
            a,
            b,
        )
}

/// Whether pass `i` can run after the passes of `done`: it is not among
/// them, and every pass that it waits for is.
pub open spec fn is_ready(deps: Seq<Seq<int>>, done: Seq<int>, i: int) -> bool {
    !done.contains(i) && forall|d: int| 0 <= d < deps[i].len() ==> done.contains(#[trigger] deps[i][d])
}

/// The index of the first pass at or after `from` that can run after the
/// passes of `done`, or the number of passes if there is none.
pub open spec fn first_ready(deps: Seq<Seq<int>>, done: Seq<int>, from: int) -> int
    decreases deps.len() - from,
{
    if from < 0 || from >= deps.len() {
        deps.len() as int
    } else if is_ready(deps, done, from) {
        from
    } else {
        first_ready(deps, done, from + 1)
    }
}

/// The order of execution that goes on from `done`: time after time the
/// pass of the lowest index that can run is put behind the others. There
/// is no such order where passes are left and none of them can run.
pub open spec fn schedule_from(deps: Seq<Seq<int>>, done: Seq<int>) -> Option<Seq<int>>
    decreases deps.len() - done.len(),
{
    if done.len() >= deps.len() {
        Some(done)
    } else {
        let next = first_ready(deps, done, 0);
        if next >= deps.len() {
            None
        } else {
            schedule_from(deps, done.push(next))
        }
    }
}

/// The order of execution of the passes.
pub open spec fn schedule(passes: Seq<PassInfo>, externals: Seq<String>) -> Option<Seq<int>> {
    schedule_from(dependencies(passes, externals), Seq::empty())
}

/// What a frame does with the graph, step by step.
#[derive(Clone, Copy, Debug, PartialEq, Eq, Structural)]
pub enum GraphCommand {
    /// Make what pass `producer` wrote visible to pass `consumer`.
    Barrier { producer: usize, consumer: usize },
    /// Record pass `pass`.
    Execute { pass: usize },
}

/// The steps of the pass `pass`: a barrier for each pass that it waits
/// for, then the pass itself.
pub open spec fn pass_commands(deps: Seq<Seq<int>>, pass: int) -> Seq<GraphCommand> {
    Seq::new(
        deps[pass].len(),
        |d: int| GraphCommand::Barrier { producer: deps[pass][d] as usize, consumer: pass as usize },
    ).push(GraphCommand::Execute { pass: pass as usize })
}

/// The steps of the first `upto` passes of `order`.
pub open spec fn frame_commands(deps: Seq<Seq<int>>, order: Seq<int>, upto: int) -> Seq<GraphCommand>
    decreases upto,
{
    if upto <= 0 {
        Seq::empty()
    } else {
        frame_commands(deps, order, upto - 1) + pass_commands(deps, order[upto - 1])
    }
}

/// A compiled graph as a value.
pub struct GraphView {
    pub dependencies: Seq<Seq<int>>,
    pub order: Seq<int>,
    pub swapchain: SwapchainInfo,
}

/// A compiled graph: for each pass the passes it waits for, the order of
/// execution, and the swapchain that the graph is built for.
#[derive(Debug)]
pub struct RenderGraph {
    dependencies: Vec<Vec<usize>>,
    order: Vec<usize>,
    swapchain: SwapchainInfo,
}

/// The indices of `list` as numbers.
pub open spec fn indices(list: Seq<usize>) -> Seq<int> {
    list.map_values(|i: usize| i as int)
}

impl View for RenderGraph {
    type V = GraphView;

    closed spec fn view(&self) -> GraphView {
        GraphView {
            dependencies: self.dependencies@.map_values(|d: Vec<usize>| indices(d@)),
            order: indices(self.order@),
            swapchain: self.swapchain,
        }
    }
}

/// Whether `a` and `b` are the same text.
fn same_name(a: &String, b: &String) -> (same: bool)
    ensures
        same == (a@ == b@),
{
    *a == *b
}

/// Whether `pass` has an output of the given name.
fn pass_has_output(pass: &PassInfo, name: &String) -> (found: bool)
    ensures
        found == has_output(*pass, name@),
{
    let mut s: usize = 0;
    while s < pass.subpasses.len()
        invariant
            s <= pass.subpasses@.len(),
            forall|a: int, o: int|
                0 <= a < s && 0 <= o < pass.subpasses@[a].outputs@.len()
                    ==> #[trigger] pass.subpasses@[a].outputs@[o].name@ != name@,
        decreases pass.subpasses@.len() - s,
    {
        let outputs = &pass.subpasses[s].outputs;
        let mut o: usize = 0;
        while o < outputs.len()
            invariant
                o <= outputs@.len(),
                s < pass.subpasses@.len(),
                outputs@ == pass.subpasses@[s as int].outputs@,
                forall|b: int| 0 <= b < o ==> #[trigger] outputs@[b].name@ != name@,
            decreases outputs@.len() - o,
        {
            if same_name(&outputs[o].name, name) {
                assert(pass.subpasses@[s as int].outputs@[o as int].name@ == name@);
                return true;
            }
            o = o + 1;
        }
        s = s + 1;
    }
    false
}

/// The index of the first pass that has an output of the given name, or
/// the number of passes.
fn find_producer(passes: &Vec<PassInfo>, name: &String) -> (producer: usize)
    ensures
        producer == producer_of(passes@, name@, 0),
        producer <= passes@.len(),
{
    let mut i: usize = 0;
    while i < passes.len() && !pass_has_output(&passes[i], name)
        invariant
            i <= passes@.len(),
            producer_of(passes@, name@, 0) == producer_of(passes@, name@, i as int),
        decreases passes@.len() - i,
    {
        i = i + 1;
    }
    i
}

/// Whether an external resource has the given name.
fn find_external(externals: &Vec<String>, name: &String) -> (found: bool)
    ensures
        found == is_external(externals@, name@),
{
    let mut e: usize = 0;
    while e < externals.len()
        invariant
            e <= externals@.len(),
            forall|a: int| 0 <= a < e ==> (#[trigger] externals@[a])@ != name@,
        decreases externals@.len() - e,
    {
        if same_name(&externals[e], name) {
            return true;
        }
        e = e + 1;
    }
    false
}

/// The indices of the first two passes of one name, if there are any.
fn find_duplicate_name(passes: &Vec<PassInfo>) -> (duplicate: Option<(usize, usize)>)
    ensures
        duplicate is None <==> names_unique(passes@),
        duplicate matches Some(pair) ==> first_duplicate(passes@, pair.0 as int, pair.1 as int),
{
    let mut b: usize = 0;
    while b < passes.len()
        invariant
            b <= passes@.len(),
            forall|x: int, y: int|
                0 <= x < y < b ==> (#[trigger] passes@[x]).name@ != (#[trigger] passes@[y]).name@,
        decreases passes@.len() - b,
    {
        let mut a: usize = 0;
        while a < b
            invariant
                a <= b < passes@.len(),
                forall|x: int| 0 <= x < a ==> (#[trigger] passes@[x]).name@ != passes@[b as int].name@,
                forall|x: int, y: int|
                    0 <= x < y < b ==> (#[trigger] passes@[x]).name@ != (#[trigger] passes@[y]).name@,
            decreases b - a,
        {
            if same_name(&passes[a].name, &passes[b].name) {
                return Some((a, b));
            }
            a = a + 1;
        }
        b = b + 1;
    }
    None
}

/// The passes that pass `i` waits for, or the place of the first input
/// that names nothing declared.
#[verifier::loop_isolation(false)]
fn collect_dependencies(passes: &Vec<PassInfo>, externals: &Vec<String>, i: usize) -> (result:
    Result<Vec<usize>, GraphError>)
    requires
        i < passes@.len(),
    ensures
        result matches Ok(deps) ==> indices(deps@) == pass_dependencies(
            passes@,
            externals@,
            i as int,
            passes@[i as int].subpasses@.len() as int,
        ) && (forall|s: int, k: int| #[trigger]
            input_in_range(passes@, i as int, s, k) ==> !undeclared_at(
                passes@,
                externals@,
                i as int,
                s,
                k,
            )) && (forall|d: int| 0 <= d < deps@.len() ==> #[trigger] deps@[d] < passes@.len()),
        result matches Err(e) ==> e matches GraphError::UndeclaredResource { pass, subpass, input }
            && pass == i && input_in_range(passes@, i as int, subpass as int, input as int)
            && undeclared_at(passes@, externals@, i as int, subpass as int, input as int)
            && (forall|a: int, b: int| #[trigger]
            input_in_range(passes@, i as int, a, b) && input_before(
                i as int,
                a,
                b,
                i as int,
                subpass as int,
                input as int,
            ) ==> !undeclared_at(passes@, externals@, i as int, a, b)),
{
    let pass = &passes[i];
    let mut deps: Vec<usize> = Vec::new();
    let mut s: usize = 0;
    while s < pass.subpasses.len()
        invariant
            s <= pass.subpasses@.len(),
            indices(deps@) == pass_dependencies(passes@, externals@, i as int, s as int),
            forall|a: int, k: int|
                0 <= a < s && #[trigger] input_in_range(passes@, i as int, a, k) ==> !undeclared_at(
                    passes@,
                    externals@,
                    i as int,
                    a,
                    k,
                ),
            forall|d: int| 0 <= d < deps@.len() ==> #[trigger] deps@[d] < passes@.len(),
        decreases pass.subpasses@.len() - s,
    {
        let inputs = &pass.subpasses[s].inputs;
        let ghost before = indices(deps@);
        let mut k: usize = 0;
        proof {
            assert(before + Seq::<int>::empty() =~= before);
        }
        while k < inputs.len()
            invariant
                k <= inputs@.len(),
                inputs@ == pass.subpasses@[s as int].inputs@,
                indices(deps@) == before + subpass_dependencies(
                    passes@,
                    externals@,
                    i as int,
                    s as int,
                    k as int,
                ),
                forall|b: int|
                    0 <= b < k ==> !undeclared_at(passes@, externals@, i as int, s as int, b),
                forall|d: int| 0 <= d < deps@.len() ==> #[trigger] deps@[d] < passes@.len(),
            decreases inputs@.len() - k,
        {
            let name = &inputs[k];
            let ghost so_far = subpass_dependencies(
                passes@,
                externals@,
                i as int,
                s as int,
                k as int,
            );
            if !find_external(externals, name) {
                let producer = find_producer(passes, name);
                if producer >= passes.len() {
                    return Err(GraphError::UndeclaredResource { pass: i, subpass: s, input: k });
                }
                if producer != i {
                    let ghost held = deps@;
                    deps.push(producer);
                    proof {
                        assert(indices(deps@) =~= indices(held).push(producer as int));
                        assert(before + so_far.push(producer as int) =~= (before + so_far).push(
                            producer as int,
                        ));
                    }
                }
            }
            k = k + 1;
        }
        s = s + 1;
    }
    Ok(deps)
}

/// Whether every pass that pass `i` waits for has been put in the order.
fn pass_is_ready(deps: &Vec<Vec<usize>>, scheduled: &Vec<bool>, i: usize, Ghost(done): Ghost<
    Seq<int>,
>) -> (ready: bool)
    requires
        i < deps@.len(),
        scheduled@.len() == deps@.len(),
        forall|p: int| 0 <= p < scheduled@.len() ==> scheduled@[p] == done.contains(p),
        forall|p: int, d: int|
            0 <= p < deps@.len() && 0 <= d < deps@[p]@.len() ==> #[trigger] deps@[p]@[d] < deps@.len(),
    ensures
        ready == is_ready(deps@.map_values(|d: Vec<usize>| indices(d@)), done, i as int),
{
    let ghost all = deps@.map_values(|d: Vec<usize>| indices(d@));
    if scheduled[i] {
        return false;
    }
    let list = &deps[i];
    let mut d: usize = 0;
    while d < list.len()
        invariant
            d <= list@.len(),
            list@ == deps@[i as int]@,
            all == deps@.map_values(|d: Vec<usize>| indices(d@)),
            i < deps@.len(),
            scheduled@.len() == deps@.len(),
            forall|p: int| 0 <= p < scheduled@.len() ==> scheduled@[p] == done.contains(p),
            forall|p: int, d: int|
                0 <= p < deps@.len() && 0 <= d < deps@[p]@.len() ==> #[trigger] deps@[p]@[d]
                    < deps@.len(),
            forall|a: int| 0 <= a < d ==> done.contains(#[trigger] all[i as int][a]),
        decreases list@.len() - d,
    {
        assert(list@[d as int] == deps@[i as int]@[d as int]);
        assert(all[i as int][d as int] == list@[d as int] as int);
        if !scheduled[list[d]] {
            return false;
        }
        d = d + 1;
    }
    true
}

impl RenderGraph {
    /// Compiles the passes into a graph for a swapchain like `swapchain`.
    ///
    /// The graph is built if no two passes have one name, every name that
    /// a pass reads is an external resource or an output of a pass, and
    /// the passes can be put in an order in which each comes after the
    /// passes it waits for. The order is then the one that always goes on
    /// with the pass of the lowest index that can run. Where two passes
    /// have one name, the error names the first two that do; where a name
    /// is not declared, it names the first input that reads such a name.
    #[verifier::loop_isolation(false)]
    pub fn compile(passes: &Vec<PassInfo>, externals: &Vec<String>, swapchain: SwapchainInfo) -> (result:
        Result<RenderGraph, GraphError>)
        ensures
            !names_unique(passes@) ==> result matches Err(
                GraphError::DuplicatePassName { first, second },
            ),
            names_unique(passes@) && !all_declared(passes@, externals@) ==> result matches Err(
                GraphError::UndeclaredResource { pass, subpass, input },
            ),
            result matches Err(GraphError::DuplicatePassName { first, second }) ==> first_duplicate(
                passes@,
                first as int,
                second as int,
            ),
            result matches Err(GraphError::UndeclaredResource { pass, subpass, input })
                ==> first_undeclared(passes@, externals@, pass as int, subpass as int, input as int),
            !(result matches Err(GraphError::SwapchainMismatch)),
            names_unique(passes@) && all_declared(passes@, externals@) && schedule(
                passes@,
                externals@,
            ) is None ==> result == Err::<RenderGraph, GraphError>(GraphError::CyclicDependency),
            names_unique(passes@) && all_declared(passes@, externals@) && schedule(
                passes@,
                externals@,
            ) is Some ==> result is Ok,
            result matches Ok(graph) ==> graph@.dependencies == dependencies(passes@, externals@)
                && Some(graph@.order) == schedule(passes@, externals@) && graph@.swapchain
                == swapchain,
    {
        match find_duplicate_name(passes) {
            Some((first, second)) => {
                return Err(GraphError::DuplicatePassName { first, second });
            },
            None => {},
        }
        let n = passes.len();
        let mut deps: Vec<Vec<usize>> = Vec::new();
        let mut i: usize = 0;
        while i < n
            invariant
                i <= n,
                n == passes@.len(),
                deps@.len() == i,
                forall|p: int|
                    0 <= p < i ==> indices((#[trigger] deps@[p])@) == pass_dependencies(
                        passes@,
                        externals@,
                        p,
                        passes@[p].subpasses@.len() as int,
                    ),
                forall|p: int, s: int, k: int|
                    0 <= p < i && #[trigger] input_in_range(passes@, p, s, k) ==> !undeclared_at(
                        passes@,
                        externals@,
                        p,
                        s,
                        k,
                    ),
                forall|p: int, d: int|
                    0 <= p < deps@.len() && 0 <= d < deps@[p]@.len() ==> #[trigger] deps@[p]@[d] < n,
            decreases n - i,
        {
            match collect_dependencies(passes, externals, i) {
                Ok(list) => {
                    deps.push(list);
                },
                Err(e) => {
                    return Err(e);
                },
            }
            i = i + 1;
        }
        let ghost all = deps@.map_values(|d: Vec<usize>| indices(d@));
        proof {
            assert(all =~= dependencies(passes@, externals@));
        }
        let mut scheduled: Vec<bool> = Vec::new();
        let mut j: usize = 0;
        while j < n
            invariant
                j <= n,
                scheduled@.len() == j,
                forall|p: int| 0 <= p < j ==> !scheduled@[p],
            decreases n - j,
        {
            scheduled.push(false);
            j = j + 1;
        }
        let mut order: Vec<usize> = Vec::new();
        proof {
            assert(indices(order@) =~= Seq::<int>::empty());
        }
        while order.len() < n
            invariant
                n == deps@.len(),
                all == deps@.map_values(|d: Vec<usize>| indices(d@)),
                scheduled@.len() == n,
                order@.len() <= n,
                forall|p: int| 0 <= p < n ==> scheduled@[p] == indices(order@).contains(p),
                forall|p: int, d: int|
                    0 <= p < deps@.len() && 0 <= d < deps@[p]@.len() ==> #[trigger] deps@[p]@[d] < n,
                schedule_from(all, indices(order@)) == schedule_from(all, Seq::empty()),
                forall|q: int| 0 <= q < order@.len() ==> #[trigger] order@[q] < n,
            decreases n - order@.len(),
        {
            let ghost done = indices(order@);
            let mut next: usize = 0;
            while next < n && !pass_is_ready(&deps, &scheduled, next, Ghost(done))
                invariant
                    next <= n,
                    n == deps@.len(),
                    all == deps@.map_values(|d: Vec<usize>| indices(d@)),
                    scheduled@.len() == n,
                    done == indices(order@),
                    forall|p: int| 0 <= p < n ==> scheduled@[p] == done.contains(p),
                    forall|p: int, d: int|
                        0 <= p < deps@.len() && 0 <= d < deps@[p]@.len() ==> #[trigger] deps@[p]@[d]
                            < n,
                    first_ready(all, done, 0) == first_ready(all, done, next as int),
                decreases n - next,
            {
                next = next + 1;
            }
            if next >= n {
                return Err(GraphError::CyclicDependency);
            }
            order.push(next);
            scheduled.set(next, true);
            proof {
                assert(indices(order@) =~= done.push(next as int));
                assert forall|p: int| 0 <= p < n implies scheduled@[p] == indices(order@).contains(
                    p,
                ) by {
                    if done.contains(p) {
                        let w = choose|w: int| 0 <= w < done.len() && done[w] == p;
                        assert(indices(order@)[w] == p);
                    }
                    if p == next {
                        assert(indices(order@)[done.len() as int] == p);
                    }
                    if indices(order@).contains(p) && p != next {
                        let w = choose|w: int| 0 <= w < indices(order@).len() && indices(order@)[w] == p;
                        assert(done[w] == p);
                    }
                }
            }
        }
        let graph = RenderGraph { dependencies: deps, order, swapchain };
        Ok(graph)
    }

    /// Every pass of the order and every pass that one waits for is a pass
    /// of the graph, and the order holds as many passes as the graph has.
    #[verifier::type_invariant]
    spec fn wf(&self) -> bool {
        &&& self.order@.len() == self.dependencies@.len()
        &&& forall|q: int| 0 <= q < self.order@.len() ==> #[trigger] self.order@[q] < self.dependencies@.len()
        &&& forall|p: int, d: int|
            0 <= p < self.dependencies@.len() && 0 <= d < self.dependencies@[p]@.len()
                ==> #[trigger] self.dependencies@[p]@[d] < self.dependencies@.len()
    }

    /// Number of passes.
    pub fn pass_count(&self) -> (count: usize)
        ensures
            count == self@.dependencies.len(),
    {
        self.dependencies.len()
    }

    /// The order of execution: the indices of the passes.
    pub fn execution_order(&self) -> (order: &Vec<usize>)
        ensures
            indices(order@) == self@.order,
    {
        &self.order
    }

    /// The passes that pass `pass` waits for.
    pub fn dependencies_of(&self, pass: usize) -> (deps: &Vec<usize>)
        requires
            pass < self@.dependencies.len(),
        ensures
            indices(deps@) == self@.dependencies[pass as int],
    {
        &self.dependencies[pass]
    }

    /// The swapchain that the graph is built for.
    pub fn swapchain(&self) -> (swapchain: SwapchainInfo)
        ensures
            swapchain == self@.swapchain,
    {
        self.swapchain
    }

    /// The steps of a frame: the passes in their order, each after a
    /// barrier for every pass that it waits for. Nothing is built or
    /// compiled for a frame.
    pub fn render(&self) -> (commands: Vec<GraphCommand>)
        ensures
            commands@ == frame_commands(self@.dependencies, self@.order, self@.order.len() as int),
    {
        proof {
            use_type_invariant(self);
        }
        let ghost deps = self@.dependencies;
        let ghost order = self@.order;
        let mut commands: Vec<GraphCommand> = Vec::new();
        let mut p: usize = 0;
        while p < self.order.len()
            invariant
                p <= self.order@.len(),
                self.wf(),
                deps == self@.dependencies,
                order == self@.order,
                commands@ == frame_commands(deps, order, p as int),
            decreases self.order@.len() - p,
        {
            let pass = self.order[p];
            let list = &self.dependencies[pass];
            let ghost before = commands@;
            let ghost steps = pass_commands(deps, pass as int);
            let mut d: usize = 0;
            proof {
                assert(order[p as int] == pass as int);
                assert(deps[pass as int] == indices(list@));
                assert(steps.take(0) =~= Seq::<GraphCommand>::empty());
                assert(before + steps.take(0) =~= before);
            }
            while d < list.len()
                invariant
                    d <= list@.len(),
                    deps[pass as int] == indices(list@),
                    steps == pass_commands(deps, pass as int),
                    commands@ == before + steps.take(d as int),
                decreases list@.len() - d,
            {
                commands.push(GraphCommand::Barrier { producer: list[d], consumer: pass });
                proof {
                    assert(steps[d as int] == (GraphCommand::Barrier {
                        producer: list@[d as int],
                        consumer: pass,
                    }));
                    assert(before + steps.take(d + 1) =~= (before + steps.take(d as int)).push(
                        steps[d as int],
                    ));
                }
                d = d + 1;
            }
            commands.push(GraphCommand::Execute { pass });
            proof {
                assert(before + steps =~= (before + steps.take(d as int)).push(
                    GraphCommand::Execute { pass },
                ));
            }
            p = p + 1;
        }
        commands
    }

    /// The graph for a recreated swapchain. The passes and their order stay
    /// as they are, so the new swapchain has to have the format and the
    /// sample count that the graph was built for; the size may differ.
    pub fn recreate(self, swapchain: SwapchainInfo) -> (result: Result<RenderGraph, GraphError>)
        ensures
            result is Ok <==> swapchain.format == self@.swapchain.format && swapchain.sample_count
                == self@.swapchain.sample_count,
            result matches Ok(graph) ==> graph@ == (GraphView { swapchain, ..self@ }),
            result matches Err(e) ==> e == GraphError::SwapchainMismatch,
    {
        proof {
            use_type_invariant(&self);
        }
        if swapchain.format != self.swapchain.format || swapchain.sample_count
            != self.swapchain.sample_count {
            return Err(GraphError::SwapchainMismatch);
        }
        Ok(RenderGraph { dependencies: self.dependencies, order: self.order, swapchain })
    }
}

/// Whether `order` names passes of `deps`, none twice, each after the
/// passes it waits for.
pub open spec fn respects_dependencies(deps: Seq<Seq<int>>, order: Seq<int>) -> bool {
    &&& order.no_duplicates()
    &&& forall|q: int| 0 <= q < order.len() ==> 0 <= #[trigger] order[q] < deps.len()
    &&& forall|q: int, d: int|
        0 <= q < order.len() && 0 <= d < deps[order[q]].len() ==> order.take(q).contains(
            #[trigger] deps[order[q]][d],
        )
}

/// [`first_ready`] finds the first pass at or after `from` that can run.
pub proof fn lemma_first_ready(deps: Seq<Seq<int>>, done: Seq<int>, from: int)
    requires
        0 <= from <= deps.len(),
    ensures
        from <= first_ready(deps, done, from) <= deps.len(),
        first_ready(deps, done, from) < deps.len() ==> is_ready(
            deps,
            done,
            first_ready(deps, done, from),
        ),
        forall|j: int| from <= j < first_ready(deps, done, from) ==> !is_ready(deps, done, j),
    decreases deps.len() - from,
{
    if from < deps.len() && !is_ready(deps, done, from) {
        lemma_first_ready(deps, done, from + 1);
    }
}

/// An order that goes on from passes that respect the dependencies
/// respects them too, begins with those passes, and holds every pass.
pub proof fn lemma_schedule_from(deps: Seq<Seq<int>>, done: Seq<int>)
    requires
        respects_dependencies(deps, done),
        done.len() <= deps.len(),
        schedule_from(deps, done) is Some,
    ensures
        respects_dependencies(deps, schedule_from(deps, done)->0),
        schedule_from(deps, done)->0.len() == deps.len(),
        schedule_from(deps, done)->0.take(done.len() as int) == done,
    decreases deps.len() - done.len(),
{
    if done.len() >= deps.len() {
        assert(done.take(done.len() as int) =~= done);
    } else {
        let next = first_ready(deps, done, 0);
        lemma_first_ready(deps, done, 0);
        let more = done.push(next);
        assert forall|q: int, d: int|
            0 <= q < more.len() && 0 <= d < deps[more[q]].len() implies more.take(q).contains(
            #[trigger] deps[more[q]][d],
        ) by {
            let wanted = deps[more[q]][d];
            if q < done.len() {
                assert(done.take(q).contains(deps[done[q]][d]));
                let w = choose|w: int| 0 <= w < done.take(q).len() && done.take(q)[w] == wanted;
                assert(more.take(q)[w] == wanted);
            } else {
                assert(done.contains(deps[next][d]));
                assert(more.take(q) =~= done);
            }
        }
        lemma_schedule_from(deps, more);
        let order = schedule_from(deps, more)->0;
        assert(order.take(done.len() as int) =~= order.take(more.len() as int).take(
            done.len() as int,
        ));
        assert(more.take(done.len() as int) =~= done);
    }
}

/// In the order of execution of a compiled graph every pass stands once,
/// and each stands behind all the passes whose outputs it reads.
pub proof fn law_schedule_is_topological(deps: Seq<Seq<int>>)
    requires
        schedule_from(deps, Seq::empty()) is Some,
    ensures
        respects_dependencies(deps, schedule_from(deps, Seq::empty())->0),
        schedule_from(deps, Seq::empty())->0.len() == deps.len(),
{
    lemma_schedule_from(deps, Seq::empty());
}

/// Whether the passes are declared in an order in which they can run:
/// every name that a pass reads is an external resource, an output of a
/// pass before it, or an output of the pass itself.
pub open spec fn declared_in_order(passes: Seq<PassInfo>, externals: Seq<String>) -> bool {
    forall|i: int, s: int, k: int| #[trigger]
        input_in_range(passes, i, s, k) ==> is_external(
            externals,
            passes[i].subpasses@[s].inputs@[k]@,
        ) || producer_of(passes, passes[i].subpasses@[s].inputs@[k]@, 0) <= i
}

/// The numbers from zero up to but without `n`.
pub open spec fn iota(n: int) -> Seq<int> {
    Seq::new(n as nat, |i: int| i)
}

/// Among passes that are declared in an order in which they can run, the
/// first inputs of a subpass wait for passes before their own only.
pub proof fn lemma_subpass_waits_for_earlier(
    passes: Seq<PassInfo>,
    externals: Seq<String>,
    i: int,
    s: int,
    upto: int,
)
    requires
        declared_in_order(passes, externals),
        0 <= i < passes.len(),
        0 <= s < passes[i].subpasses@.len(),
        0 <= upto <= passes[i].subpasses@[s].inputs@.len(),
    ensures
        forall|d: int|
            0 <= d < subpass_dependencies(passes, externals, i, s, upto).len() ==> 0
                <= #[trigger] subpass_dependencies(passes, externals, i, s, upto)[d] < i,
    decreases upto,
{
    if upto > 0 {
        lemma_subpass_waits_for_earlier(passes, externals, i, s, upto - 1);
        assert(input_in_range(passes, i, s, upto - 1));
        lemma_producer_of(passes, passes[i].subpasses@[s].inputs@[upto - 1]@, 0);
        let before = subpass_dependencies(passes, externals, i, s, upto - 1);
        let all = subpass_dependencies(passes, externals, i, s, upto);
        assert forall|d: int| 0 <= d < all.len() implies 0 <= #[trigger] all[d] < i by {
            if d < before.len() {
                assert(all[d] == before[d]);
            }
        }
    }
}

/// [`producer_of`] gives an index at or after `from`, up to the number of
/// passes.
pub proof fn lemma_producer_of(passes: Seq<PassInfo>, name: Seq<char>, from: int)
    requires
        0 <= from <= passes.len(),
    ensures
        from <= producer_of(passes, name, from) <= passes.len(),
        producer_of(passes, name, from) < passes.len() ==> has_output(
            passes[producer_of(passes, name, from)],
            name,
        ),
        forall|j: int| from <= j < producer_of(passes, name, from) ==> !has_output(passes[j], name),
    decreases passes.len() - from,
{
    if from < passes.len() && !has_output(passes[from], name) {
        lemma_producer_of(passes, name, from + 1);
    }
}

/// Among passes that are declared in an order in which they can run, a pass
/// waits for passes before it only.
pub proof fn lemma_pass_waits_for_earlier(
    passes: Seq<PassInfo>,
    externals: Seq<String>,
    i: int,
    upto: int,
)
    requires
        declared_in_order(passes, externals),
        0 <= i < passes.len(),
        0 <= upto <= passes[i].subpasses@.len(),
    ensures
        forall|d: int|
            0 <= d < pass_dependencies(passes, externals, i, upto).len() ==> 0
                <= #[trigger] pass_dependencies(passes, externals, i, upto)[d] < i,
    decreases upto,
{
    if upto > 0 {
        lemma_pass_waits_for_earlier(passes, externals, i, upto - 1);
        lemma_subpass_waits_for_earlier(
            passes,
            externals,
            i,
            upto - 1,
            passes[i].subpasses@[upto - 1].inputs@.len() as int,
        );
        let before = pass_dependencies(passes, externals, i, upto - 1);
        let last = subpass_dependencies(
            passes,
            externals,
            i,
            upto - 1,
            passes[i].subpasses@[upto - 1].inputs@.len() as int,
        );
        let all = pass_dependencies(passes, externals, i, upto);
        assert forall|d: int| 0 <= d < all.len() implies 0 <= #[trigger] all[d] < i by {
            if d < before.len() {
                assert(all[d] == before[d]);
            } else {
                assert(all[d] == last[d - before.len()]);
            }
        }
    }
}

/// Where every pass waits for passes before it only, and the first `k`
/// passes have run in their order, the pass that runs next is pass `k`.
pub proof fn lemma_next_in_order(deps: Seq<Seq<int>>, k: int, from: int)
    requires
        0 <= from <= k < deps.len(),
        forall|i: int, d: int|
            0 <= i < deps.len() && 0 <= d < deps[i].len() ==> 0 <= #[trigger] deps[i][d] < i,
    ensures
        first_ready(deps, iota(k), from) == k,
    decreases k - from,
{
    let done = iota(k);
    if from < k {
        assert(done[from] == from);
        assert(done.contains(from));
        lemma_next_in_order(deps, k, from + 1);
    } else {
        assert forall|d: int| 0 <= d < deps[k].len() implies done.contains(#[trigger] deps[k][d]) by {
            let wanted = deps[k][d];
            assert(done[wanted] == wanted);
        }
    }
}

/// Where every pass waits for passes before it only, the order of
/// execution is the order of the passes.
pub proof fn lemma_schedule_in_order(deps: Seq<Seq<int>>, k: int)
    requires
        0 <= k <= deps.len(),
        forall|i: int, d: int|
            0 <= i < deps.len() && 0 <= d < deps[i].len() ==> 0 <= #[trigger] deps[i][d] < i,
    ensures
        schedule_from(deps, iota(k)) == Some(iota(deps.len() as int)),
    decreases deps.len() - k,
{
    if k < deps.len() {
        lemma_next_in_order(deps, k, 0);
        assert(iota(k).push(k) =~= iota(k + 1));
        lemma_schedule_in_order(deps, k + 1);
    }
}

/// Passes that are declared in an order in which they can run make a graph,
/// if no two of them have one name, and run in the order in which they are
/// declared.
pub proof fn law_declared_order_is_kept(passes: Seq<PassInfo>, externals: Seq<String>)
    requires
        declared_in_order(passes, externals),
    ensures
        all_declared(passes, externals),
        schedule(passes, externals) == Some(iota(passes.len() as int)),
{
    let deps = dependencies(passes, externals);
    assert forall|i: int, s: int, k: int| #[trigger]
        input_in_range(passes, i, s, k) implies !undeclared_at(passes, externals, i, s, k) by {}
    assert forall|i: int, d: int| 0 <= i < deps.len() && 0 <= d < deps[i].len() implies 0
        <= #[trigger] deps[i][d] < i by {
        lemma_pass_waits_for_earlier(passes, externals, i, passes[i].subpasses@.len() as int);
    }
    assert(iota(0) =~= Seq::<int>::empty());
    lemma_schedule_in_order(deps, 0);
}

} // verus!
