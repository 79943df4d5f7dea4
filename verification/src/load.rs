//! Builds a live pipeline from a flat, declarative node-definition list:
//! type resolution, the sink requirement, name and input validation, cycle
//! detection through a topological sort, and construction in dependency
//! order.

use vstd::prelude::*;

use crate::options::Options;
use crate::pipeline::{
    construct_ok, lemma_node_type_provides, node_matches_type, type_provides, Capability, Node,
    NodeFactory, NodeId, NodeType, Pipeline,
};
use crate::util::spectrum::ComputeSpectrum;
use crate::util::video::VideoConfig;
use crate::util::{Error, InvalidPipeline};

verus! {

#[verifier::external_type_specification]
#[verifier::external_body]
#[verifier::reject_recursive_types(N)]
#[verifier::reject_recursive_types(E)]
#[verifier::reject_recursive_types(Ty)]
#[verifier::reject_recursive_types(Ix)]
pub struct ExGraph<N, E, Ty, Ix>(petgraph::graph::Graph<N, E, Ty, Ix>);

#[verifier::external_type_specification]
#[verifier::external_body]
pub struct ExDirected(petgraph::Directed);

/// The dependency graph: anonymous vertices, one per definition.
pub type DepGraph = petgraph::graph::Graph<(), (), petgraph::Directed, usize>;

/// How many vertices the dependency graph holds.
pub uninterp spec fn graph_nodes(g: DepGraph) -> nat;

/// The set of directed edges the dependency graph holds, as pairs of vertex
/// indices.
pub uninterp spec fn graph_edges(g: DepGraph) -> Set<(int, int)>;

/// Relies on petgraph's `Graph::default`: a new graph has no vertices and
/// no edges.
#[verifier::external_body]
fn graph_new() -> (g: DepGraph)
    ensures
        graph_nodes(g) == 0,
        graph_edges(g) == Set::<(int, int)>::empty(),
{
    petgraph::graph::Graph::default()
}

/// Relies on petgraph's `Graph::add_node`: the new vertex's index equals
/// the previous vertex count, and edges are untouched.
#[verifier::external_body]
fn graph_add_node(g: &mut DepGraph) -> (i: usize)
    ensures
        graph_nodes(*final(g)) == graph_nodes(*old(g)) + 1,
        i == graph_nodes(*old(g)),
        graph_edges(*final(g)) == graph_edges(*old(g)),
{
    g.add_node(()).index()
}

/// Relies on petgraph's `Graph::add_edge` on existing endpoints: one
/// directed edge from `a` to `b` is added, vertices untouched.
#[verifier::external_body]
fn graph_add_edge(g: &mut DepGraph, a: usize, b: usize)
    requires
        a < graph_nodes(*old(g)),
        b < graph_nodes(*old(g)),
    ensures
        graph_nodes(*final(g)) == graph_nodes(*old(g)),
        graph_edges(*final(g)) == graph_edges(*old(g)).insert((a as int, b as int)),
{
    g.add_edge(
        petgraph::graph::NodeIndex::new(a),
        petgraph::graph::NodeIndex::new(b),
        (),
    );
}

/// Whether some position of `order` holds the vertex `v`.
pub open spec fn appears(order: Seq<usize>, v: int) -> bool {
    exists|k: int| 0 <= k < order.len() && (#[trigger] order[k]) == v
}

/// Whether `order` lists every vertex of `0..n` exactly once, with every
/// edge pointing forward.
pub open spec fn topo_order_ok(n: int, edges: Set<(int, int)>, order: Seq<usize>) -> bool {
    &&& order.len() == n
    &&& forall|k: int| 0 <= k < order.len() ==> (#[trigger] order[k]) < n
    &&& forall|k1: int, k2: int|
        #![trigger order[k1], order[k2]]
        0 <= k1 < order.len() && 0 <= k2 < order.len() && k1 != k2 ==> order[k1] != order[k2]
    &&& forall|v: int| 0 <= v < n ==> #[trigger] appears(order, v)
    &&& forall|k1: int, k2: int|
        #![trigger order[k1], order[k2]]
        0 <= k1 < order.len() && 0 <= k2 < order.len() && edges.contains(
            (order[k1] as int, order[k2] as int),
        ) ==> k1 < k2
}

/// Whether the edge set contains a directed cycle: a closed walk of at
/// least one edge.
pub open spec fn has_cycle(edges: Set<(int, int)>) -> bool {
    exists|s: Seq<int>|
        #![trigger s.len()]
        s.len() >= 2 && s[0] == s[s.len() - 1] && (forall|i: int|
            0 <= i < s.len() - 1 ==> edges.contains((#[trigger] s[i], s[i + 1])))
}

/// Relies on petgraph's `toposort`: an acyclic graph yields every vertex,
/// each ordered before its successors; a cyclic graph (self loops included)
/// yields an error carrying a vertex on a cycle.
#[verifier::external_body]
fn graph_toposort(g: &DepGraph) -> (r: Result<Vec<usize>, usize>)
    ensures
        r matches Ok(order) ==> topo_order_ok(graph_nodes(*g) as int, graph_edges(*g), order@),
        r is Err ==> has_cycle(graph_edges(*g)),
{
    match petgraph::algo::toposort(g, None) {
        Ok(order) => Ok(order.into_iter().map(|i| i.index()).collect()),
        Err(c) => Err(c.node_id().index()),
    }
}

/// One node definition: a declared type, named inputs, and an option block.
#[derive(Debug)]
pub struct PipelineConfigNode {
    pub node_type: String,
    pub inputs: Vec<String>,
    pub options: Options,
}

/// Optional top-level video settings, each independently optional.
#[derive(Debug)]
pub struct PipelineConfigVideo {
    pub width: Option<usize>,
    pub height: Option<usize>,
    pub fps: Option<usize>,
}

/// A whole declarative pipeline: optional video settings and the node
/// definitions, keyed by name.
#[derive(Debug)]
pub struct PipelineConfig {
    pub video: Option<PipelineConfigVideo>,
    pub pipeline: Vec<(String, PipelineConfigNode)>,
}

/// Whether every declared type resolves against the factory.
pub open spec fn all_types_known(
    defs: Seq<(String, PipelineConfigNode)>,
    factory: NodeFactory,
) -> bool {
    forall|d: int|
        0 <= d < defs.len() ==> factory.spec_get((#[trigger] defs[d]).1.node_type@) is Some
}

/// Whether some definition resolves to a sink kind.
pub open spec fn some_sink(defs: Seq<(String, PipelineConfigNode)>, factory: NodeFactory) -> bool {
    exists|d: int|
        0 <= d < defs.len() && (factory.spec_get((#[trigger] defs[d]).1.node_type@) matches Some(
        t) && t.spec_is_sink())
}

/// Whether no two definitions share a name.
pub open spec fn names_unique(defs: Seq<(String, PipelineConfigNode)>) -> bool {
    forall|d1: int, d2: int|
        #![trigger defs[d1], defs[d2]]
        0 <= d1 < defs.len() && 0 <= d2 < defs.len() && d1 != d2 ==> defs[d1].0@ != defs[d2].0@
}

/// Whether some definition carries the given name.
pub open spec fn name_declared(defs: Seq<(String, PipelineConfigNode)>, s: Seq<char>) -> bool {
    exists|d: int| 0 <= d < defs.len() && (#[trigger] defs[d]).0@ == s
}

/// Whether every declared input is itself a declared node name.
pub open spec fn inputs_declared(defs: Seq<(String, PipelineConfigNode)>) -> bool {
    forall|d: int, i: int|
        0 <= d < defs.len() && 0 <= i < defs[d].1.inputs@.len() ==> name_declared(
            defs,
            (#[trigger] defs[d].1.inputs@[i])@,
        )
}

/// Index of the first definition at or after `k` with the given name, or
/// the definition count if none has it.
pub open spec fn name_index_from(
    defs: Seq<(String, PipelineConfigNode)>,
    s: Seq<char>,
    k: int,
) -> int
    decreases defs.len() - k when 0 <= k <= defs.len()
{
    if k >= defs.len() {
        defs.len() as int
    } else if defs[k].0@ == s {
        k
    } else {
        name_index_from(defs, s, k + 1)
    }
}

/// Index of the first definition with the given name.
pub open spec fn name_index(defs: Seq<(String, PipelineConfigNode)>, s: Seq<char>) -> int {
    name_index_from(defs, s, 0)
}

/// The dependency edges a definition set declares: one edge from each
/// input's definition to the definition that consumes it.
pub open spec fn spec_edges(defs: Seq<(String, PipelineConfigNode)>) -> Set<(int, int)> {
    Set::new(
        |p: (int, int)|
            exists|d: int, i: int|
                0 <= d < defs.len() && 0 <= i < defs[d].1.inputs@.len() && p == (
                    name_index(defs, (#[trigger] defs[d].1.inputs@[i])@),
                    d,
                ),
    )
}

proof fn lemma_name_index_found(defs: Seq<(String, PipelineConfigNode)>, s: Seq<char>, k: int)
    requires
        0 <= k <= defs.len(),
        exists|d: int| k <= d < defs.len() && (#[trigger] defs[d]).0@ == s,
    ensures
        k <= name_index_from(defs, s, k) < defs.len(),
        defs[name_index_from(defs, s, k)].0@ == s,
    decreases defs.len() - k,
{
    if defs[k].0@ == s {
    } else {
        let d0 = choose|d: int| k <= d < defs.len() && (#[trigger] defs[d]).0@ == s;
        assert(k + 1 <= d0);
        lemma_name_index_found(defs, s, k + 1);
    }
}

/// Index of the first definition with the given name, or the count if none
/// has it.
fn find_name(defs: &Vec<(String, PipelineConfigNode)>, s: &str) -> (r: usize)
    ensures
        r == name_index_from(defs@, s@, 0),
        r <= defs@.len(),
        r < defs@.len() ==> defs@[r as int].0@ == s@,
{
    let n = defs.len();
    let mut i: usize = 0;
    while i < n
        invariant
            i <= n,
            n == defs@.len(),
            name_index_from(defs@, s@, 0) == name_index_from(defs@, s@, i as int),
        decreases n - i,
    {
        if crate::text::str_eq(defs[i].0.as_str(), s) {
            return i;
        }
        i = i + 1;
    }
    n
}

proof fn lemma_name_index_not_found(defs: Seq<(String, PipelineConfigNode)>, s: Seq<char>, k: int)
    requires
        0 <= k <= defs.len(),
        name_index_from(defs, s, k) == defs.len(),
    ensures
        forall|d: int| k <= d < defs.len() ==> (#[trigger] defs[d]).0@ != s,
    decreases defs.len() - k,
{
    if k < defs.len() {
        lemma_name_index_not_found(defs, s, k + 1);
    }
}

/// Position of a vertex in an order that lists every vertex once.
pub open spec fn pos_of(order: Seq<usize>, v: int) -> int {
    choose|k: int| 0 <= k < order.len() && (#[trigger] order[k]) == v
}

proof fn lemma_walk_increases(edges: Set<(int, int)>, order: Seq<usize>, n: int, s: Seq<int>, i: int)
    requires
        topo_order_ok(n, edges, order),
        forall|p: (int, int)| #[trigger] edges.contains(p) ==> 0 <= p.0 < n && 0 <= p.1 < n,
        s.len() >= 2,
        forall|j: int| 0 <= j < s.len() - 1 ==> edges.contains((#[trigger] s[j], s[j + 1])),
        1 <= i < s.len(),
    ensures
        0 <= s[0] < n,
        0 <= s[i] < n,
        pos_of(order, s[0]) < pos_of(order, s[i]),
        0 <= pos_of(order, s[0]) < order.len(),
        0 <= pos_of(order, s[i]) < order.len(),
        order[pos_of(order, s[0])] == s[0],
        order[pos_of(order, s[i])] == s[i],
    decreases i,
{
    assert(edges.contains((s[i - 1], s[i])));
    assert(0 <= s[i] < n);
    assert(appears(order, s[i]));
    assert(order[pos_of(order, s[i])] == s[i]);
    if i == 1 {
        assert(edges.contains((s[0], s[1])));
        assert(0 <= s[0] < n);
        assert(appears(order, s[0]));
        assert(order[pos_of(order, s[0])] == s[0]);
        let k0 = pos_of(order, s[0]);
        let k1 = pos_of(order, s[1]);
        assert(edges.contains((order[k0] as int, order[k1] as int)));
        assert(k0 < k1);
    } else {
        lemma_walk_increases(edges, order, n, s, i - 1);
        let kp = pos_of(order, s[i - 1]);
        let ki2 = pos_of(order, s[i]);
        assert(edges.contains((order[kp] as int, order[ki2] as int)));
        assert(kp < ki2);
    }
}

/// A graph with a topological order has no cycle.
proof fn lemma_topo_no_cycle(edges: Set<(int, int)>, order: Seq<usize>, n: int)
    requires
        topo_order_ok(n, edges, order),
        forall|p: (int, int)| #[trigger] edges.contains(p) ==> 0 <= p.0 < n && 0 <= p.1 < n,
    ensures
        !has_cycle(edges),
{
    if has_cycle(edges) {
        let s = choose|s: Seq<int>|
            #![trigger s.len()]
            s.len() >= 2 && s[0] == s[s.len() - 1] && (forall|i: int|
                0 <= i < s.len() - 1 ==> edges.contains((#[trigger] s[i], s[i + 1])));
        lemma_walk_increases(edges, order, n, s, s.len() - 1);
        assert(pos_of(order, s[0]) < pos_of(order, s[s.len() - 1]));
        assert(false);
    }
}

/// With every input declared, every declared edge joins two definitions.
proof fn lemma_edges_in_range(defs: Seq<(String, PipelineConfigNode)>)
    requires
        inputs_declared(defs),
    ensures
        forall|p: (int, int)|
            #[trigger] spec_edges(defs).contains(p) ==> 0 <= p.0 < defs.len() && 0 <= p.1
                < defs.len(),
{
    assert forall|p: (int, int)| #[trigger] spec_edges(defs).contains(p) implies 0 <= p.0
        < defs.len() && 0 <= p.1 < defs.len() by {
        let (d, i) = choose|d: int, i: int|
            0 <= d < defs.len() && 0 <= i < defs[d].1.inputs@.len() && p == (
                name_index(defs, (#[trigger] defs[d].1.inputs@[i])@),
                d,
            );
        assert(name_declared(defs, defs[d].1.inputs@[i]@));
        let d0 = choose|d0: int| 0 <= d0 < defs.len() && (#[trigger] defs[d0]).0@ == defs[d].1.inputs@[i]@;
        lemma_name_index_found(defs, defs[d].1.inputs@[i]@, 0);
    }
}


proof fn lemma_name_index_le(defs: Seq<(String, PipelineConfigNode)>, s: Seq<char>)
    requires
        0 <= name_index(defs, s) < defs.len(),
    ensures
        defs[name_index(defs, s)].0@ == s,
{
    lemma_name_index_hits(defs, s, 0);
}

proof fn lemma_name_index_lb(defs: Seq<(String, PipelineConfigNode)>, s: Seq<char>, k: int)
    requires
        0 <= k <= defs.len(),
    ensures
        k <= name_index_from(defs, s, k) <= defs.len(),
    decreases defs.len() - k,
{
    if k < defs.len() && !(defs[k].0@ == s) {
        lemma_name_index_lb(defs, s, k + 1);
    }
}

proof fn lemma_name_index_hits(defs: Seq<(String, PipelineConfigNode)>, s: Seq<char>, k: int)
    requires
        0 <= k <= defs.len(),
        k <= name_index_from(defs, s, k) < defs.len(),
    ensures
        defs[name_index_from(defs, s, k)].0@ == s,
    decreases defs.len() - k,
{
    if k < defs.len() && !(defs[k].0@ == s) {
        lemma_name_index_lb(defs, s, k + 1);
        lemma_name_index_hits(defs, s, k + 1);
    }
}

/// Whether the named input of a definition resolves to a kind with the
/// given capability.
pub open spec fn input_type_provides(
    defs: Seq<(String, PipelineConfigNode)>,
    factory: NodeFactory,
    s: Seq<char>,
    cap: Capability,
) -> bool {
    factory.spec_get(defs[name_index(defs, s)].1.node_type@) matches Some(t) && type_provides(
        t,
        cap,
    )
}

/// Whether one definition can be constructed, judged from the definition
/// set alone: its kind's arity and capability demands over the kinds of its
/// inputs, and its option checks.
pub open spec fn def_construct_ok(
    defs: Seq<(String, PipelineConfigNode)>,
    factory: NodeFactory,
    fps: int,
    sample_rate: Option<usize>,
    d: int,
) -> bool {
    factory.spec_get(defs[d].1.node_type@) matches Some(t) && ({
        let inputs = defs[d].1.inputs@;
        let options = defs[d].1.options;
        match t {
            NodeType::Device => inputs.len() == 0 && (sample_rate matches Some(sr) && 1 <= sr
                <= 1_000_000),
            NodeType::RandomColor => inputs.len() == 0
                && crate::sources::random_color::splits_ok(options.spec_get("split-x"@))
                && crate::sources::random_color::splits_ok(options.spec_get("split-y"@))
                && crate::sources::random_color::update_every_ok(
                options.spec_get("update-every"@),
            ) && 1 <= crate::sources::random_color::modulo_of(
                options.spec_get("update-every"@),
                fps,
            ) <= 0xffff_ffff,
            NodeType::Rtsp => inputs.len() == 1 && input_type_provides(
                defs,
                factory,
                inputs[0]@,
                Capability::ProvideVideoFrame,
            ),
            NodeType::Average => inputs.len() == 1 && input_type_provides(
                defs,
                factory,
                inputs[0]@,
                Capability::ProvideNumber,
            ) && crate::processors::average::alpha_ok(options.spec_get("smoothing-factor"@)),
            NodeType::Circle => inputs.len() == 1 && input_type_provides(
                defs,
                factory,
                inputs[0]@,
                Capability::ProvideNumber,
            ),
            NodeType::Equalizer => inputs.len() == 1 && input_type_provides(
                defs,
                factory,
                inputs[0]@,
                Capability::ProvideSpectrum,
            ),
            NodeType::Loudness => inputs.len() == 1 && input_type_provides(
                defs,
                factory,
                inputs[0]@,
                Capability::ProvideAudioData,
            ),
            NodeType::Merge => (inputs.len() >= 1 && (forall|k: int|
                0 <= k < inputs.len() ==> input_type_provides(
                    defs,
                    factory,
                    (#[trigger] inputs[k])@,
                    Capability::ProvideVideoFrame,
                ))) && crate::processors::merge::contributions_ok(
                options.spec_get("contributions"@),
                inputs.len() as int,
            ) && crate::processors::merge::mode_ok(options.spec_get("mode"@)),
            NodeType::Spectrum => inputs.len() == 1 && input_type_provides(
                defs,
                factory,
                inputs[0]@,
                Capability::ProvideAudioData,
            ) && crate::processors::spectrum::window_ok(options.spec_get("window-size"@))
                && crate::processors::spectrum::range_ok(options.spec_get("frequency-range"@)),
        }
    })
}


/// If a definition is constructible judged from the definition set, then
/// the matching construction call on the partially built arena succeeds:
/// every resolved input sits at an earlier arena position whose node has
/// its declared kind.
proof fn lemma_construction_succeeds<S: ComputeSpectrum>(
    defs: Seq<(String, PipelineConfigNode)>,
    factory: NodeFactory,
    types: Seq<NodeType>,
    order: Seq<usize>,
    nodes: Seq<Node<S>>,
    pos: Seq<usize>,
    resolved: Seq<Vec<usize>>,
    inputs: Seq<usize>,
    config: VideoConfig,
    sample_rate: Option<usize>,
    d: int,
    k: int,
)
    requires
        0 <= d < defs.len(),
        0 <= k <= defs.len(),
        types.len() == defs.len(),
        forall|a: int|
            0 <= a < defs.len() ==> factory.spec_get((#[trigger] defs[a]).1.node_type@)
                == Option::Some(types[a]),
        order.len() == defs.len(),
        nodes.len() == k,
        pos.len() == defs.len(),
        resolved.len() == defs.len(),
        forall|a: int|
            0 <= a < defs.len() ==> (#[trigger] resolved[a])@.len() == defs[a].1.inputs@.len(),
        forall|a: int, b2: int|
            #![trigger resolved[a]@[b2]]
            0 <= a < defs.len() && 0 <= b2 < defs[a].1.inputs@.len() ==> resolved[a]@[b2]
                < defs.len() && resolved[a]@[b2] == name_index(defs, defs[a].1.inputs@[b2]@),
        forall|j: int|
            0 <= j < k ==> node_matches_type(#[trigger] nodes[j], types[order[j] as int]),
        forall|v: int|
            0 <= v < defs.len() && (#[trigger] pos[v]) != defs.len() ==> pos[v] < k
                && order[pos[v] as int] == v,
        inputs.len() == defs[d].1.inputs@.len(),
        forall|b2: int|
            0 <= b2 < inputs.len() ==> (#[trigger] inputs[b2]) < k && inputs[b2] == pos[resolved[d]@[b2] as int],
        names_unique(defs),
        inputs_declared(defs),
        def_construct_ok(defs, factory, config.spec_fps() as int, sample_rate, d),
    ensures
        construct_ok(types[d], nodes, inputs, defs[d].1.options, config, sample_rate),
{
    assert forall|b2: int| 0 <= b2 < inputs.len() implies (forall|cap: Capability|
        #[trigger] nodes[#[trigger] inputs[b2] as int].provides(cap) == input_type_provides(
            defs,
            factory,
            (defs[d].1.inputs@[b2])@,
            cap,
        )) by {
        let src = resolved[d]@[b2] as int;
        assert(resolved[d]@[b2] == name_index(defs, defs[d].1.inputs@[b2]@));
        let j0 = pos[src] as int;
        assert(inputs[b2] == pos[src]);
        assert(inputs[b2] < k);
        assert(pos[src] != defs.len());
        assert(order[j0] == src);
        assert(node_matches_type(nodes[j0], types[src]));
        lemma_node_type_provides(nodes[j0], types[src]);
        assert(factory.spec_get(defs[src].1.node_type@) == Option::Some(types[src]));
    }
}

/// Whether one optional width setting is in range.
pub open spec fn width_setting_ok(o: Option<usize>) -> bool {
    match o {
        Option::None => true,
        Option::Some(w) => 352 <= w <= 7680 && w % 2 == 0,
    }
}

/// Whether one optional height setting is in range.
pub open spec fn height_setting_ok(o: Option<usize>) -> bool {
    match o {
        Option::None => true,
        Option::Some(h) => 240 <= h <= 4320 && h % 2 == 0,
    }
}

/// Whether one optional frame-rate setting is in range.
pub open spec fn fps_setting_ok(o: Option<usize>) -> bool {
    match o {
        Option::None => true,
        Option::Some(f) => 1 <= f <= 60,
    }
}

impl PipelineConfig {
    /// The frame rate the declared settings select.
    pub open spec fn chosen_fps(self) -> int {
        match self.video {
            Option::None => 24,
            Option::Some(v) => match v.fps {
                Option::Some(f) => f as int,
                Option::None => 24,
            },
        }
    }

    /// Whether the declared video settings are all usable.
    pub open spec fn video_ok(self) -> bool {
        match self.video {
            Option::None => true,
            Option::Some(v) => width_setting_ok(v.width) && height_setting_ok(v.height)
                && fps_setting_ok(v.fps),
        }
    }

    /// The validated video settings: each declared value taken over its
    /// default of 1280x720 at 24 frames per second.
    pub fn video_config(&self) -> (r: Result<VideoConfig, Error>)
        ensures
            r is Ok <==> self.video_ok(),
            r matches Err(e) ==> e is InvalidOptions,
            r matches Ok(c) ==> ({
                &&& c.valid()
                &&& match self.video {
                    Option::None => c.spec_width() == 1280 && c.spec_height() == 720
                        && c.spec_fps() == 24,
                    Option::Some(v) => {
                        &&& c.spec_width() == match v.width {
                            Option::Some(w) => w as nat,
                            Option::None => 1280nat,
                        }
                        &&& c.spec_height() == match v.height {
                            Option::Some(h) => h as nat,
                            Option::None => 720nat,
                        }
                        &&& c.spec_fps() == match v.fps {
                            Option::Some(f) => f as nat,
                            Option::None => 24nat,
                        }
                    },
                }
            }),
    {
        let mut builder = VideoConfig::builder();
        match &self.video {
            None => {},
            Some(v) => {
                match v.width {
                    Some(w) => {
                        if !(352 <= w && w <= 7680 && w % 2 == 0) {
                            return Err(Error::InvalidOptions);
                        }
                        builder.width(w);
                    },
                    None => {},
                }
                match v.height {
                    Some(h) => {
                        if !(240 <= h && h <= 4320 && h % 2 == 0) {
                            return Err(Error::InvalidOptions);
                        }
                        builder.height(h);
                    },
                    None => {},
                }
                match v.fps {
                    Some(f) => {
                        if !(1 <= f && f <= 60) {
                            return Err(Error::InvalidOptions);
                        }
                        builder.fps(f);
                    },
                    None => {},
                }
            },
        }
        Ok(builder.build())
    }

    /// Validate the definition set and construct the live graph in
    /// dependency order.
    ///
    /// The structural checks run in a fixed order and each one's error is
    /// reported exactly when its condition fails with all earlier checks
    /// passed: an unregistered type name, then the sink requirement, then a
    /// duplicated node name, then an undeclared input name, then a
    /// dependency cycle. Only then are the video settings checked and the
    /// nodes constructed, in a topological order of the declared inputs.
    pub fn pipeline<S: ComputeSpectrum>(&self, factory: &NodeFactory, sample_rate: Option<usize>) -> (r:
        Result<Pipeline<S>, Error>)
        ensures
            !all_types_known(self.pipeline@, *factory) <==> (r matches Err(e) && e
                is UnknownNode),
            (all_types_known(self.pipeline@, *factory) && !some_sink(self.pipeline@, *factory))
                <==> (r matches Err(e) && (e matches Error::InvalidPipeline(p) && p
                is SourceProcessorsSinkOrder)),
            (all_types_known(self.pipeline@, *factory) && some_sink(self.pipeline@, *factory)
                && !names_unique(self.pipeline@)) <==> (r matches Err(e) && (e matches
                Error::InvalidPipeline(p) && p is InvalidSyntax)),
            (all_types_known(self.pipeline@, *factory) && some_sink(self.pipeline@, *factory)
                && names_unique(self.pipeline@) && !inputs_declared(self.pipeline@)) <==> (
            r matches Err(e) && (e matches Error::InvalidPipeline(p) && p is UnknownInput)),
            (all_types_known(self.pipeline@, *factory) && some_sink(self.pipeline@, *factory)
                && names_unique(self.pipeline@) && inputs_declared(self.pipeline@) && has_cycle(
                spec_edges(self.pipeline@),
            )) ==> (r matches Err(e) && (e matches Error::InvalidPipeline(p) && p is Cycle)),
            r matches Err(e) ==> ((e matches Error::InvalidPipeline(p) && p is Cycle)
                ==> has_cycle(spec_edges(self.pipeline@))),
            r matches Err(e) ==> !(e matches Error::InvalidPipeline(p) && p
                is SourceProcessorsSinkOrder) ==> !(e matches Error::InvalidPipeline(p2) && p2
                is InvalidSyntax) ==> !(e matches Error::InvalidPipeline(p3) && p3
                is UnknownInput) ==> !(e is UnknownNode) ==> (e is InvalidInputs || e
                is InvalidOptions || e is System || (e matches Error::InvalidPipeline(p4) && p4
                is Cycle)),
            (all_types_known(self.pipeline@, *factory) && some_sink(self.pipeline@, *factory)
                && names_unique(self.pipeline@) && inputs_declared(self.pipeline@) && !has_cycle(
                spec_edges(self.pipeline@),
            ) && self.video_ok() && (forall|d: int|
                0 <= d < self.pipeline@.len() ==> def_construct_ok(
                    self.pipeline@,
                    *factory,
                    self.chosen_fps(),
                    sample_rate,
                    d,
                ))) ==> r is Ok,
            r matches Ok(p) ==> ({
                &&& p.wf()
                &&& p.spec_nodes().len() == self.pipeline@.len()
                &&& (forall|j: int|
                    0 <= j < p.spec_nodes().len() ==> (p.spec_sinks().contains(j as usize) <==> (
                    #[trigger] p.spec_nodes()[j]) is Rtsp))
                &&& (forall|m1: int, m2: int|
                    #![trigger p.spec_sinks()[m1], p.spec_sinks()[m2]]
                    0 <= m1 < m2 < p.spec_sinks().len() ==> p.spec_sinks()[m1]
                        < p.spec_sinks()[m2])
                &&& exists|order: Seq<usize>|
                    {
                        &&& #[trigger] order.len() == self.pipeline@.len()
                        &&& topo_order_ok(
                            self.pipeline@.len() as int,
                            spec_edges(self.pipeline@),
                            order,
                        )
                        &&& forall|j: int|
                            0 <= j < order.len() ==> ({
                                &&& p.spec_names()[j]@ == self.pipeline@[(
                                #[trigger] order[j]) as int].0@
                                &&& (factory.spec_get(
                                    self.pipeline@[order[j] as int].1.node_type@,
                                ) matches Some(t) && node_matches_type(p.spec_nodes()[j], t))
                            })
                    }
            }),
    {
        let defs = &self.pipeline;
        let n = defs.len();

        // 1. Resolve every declared type against the factory.
        let mut types: Vec<NodeType> = Vec::new();
        let mut i: usize = 0;
        while i < n
            invariant
                i <= n,
                n == defs@.len(),
                    defs@ == self.pipeline@,
                types@.len() == i,
                forall|d: int|
                    0 <= d < i ==> factory.spec_get((#[trigger] defs@[d]).1.node_type@)
                        == Option::Some(types@[d]),
            decreases n - i,
        {
            match factory.get(defs[i].1.node_type.as_str()) {
                Some(t) => {
                    types.push(t);
                },
                None => {
                    proof {
                        assert(factory.spec_get((defs@[i as int]).1.node_type@) is None);
                        assert(!all_types_known(defs@, *factory));
                    }
                    return Err(Error::UnknownNode(defs[i].1.node_type.clone()));
                },
            }
            i = i + 1;
        }

        // 2. Reject the whole pipeline if no definition is a sink.
        let mut saw_sink = false;
        let mut i: usize = 0;
        while i < n
            invariant
                i <= n,
                n == defs@.len(),
                    defs@ == self.pipeline@,
                types@.len() == n,
                forall|d: int|
                    0 <= d < n ==> factory.spec_get((#[trigger] defs@[d]).1.node_type@)
                        == Option::Some(types@[d]),
                saw_sink <==> exists|d: int|
                    0 <= d < i && (#[trigger] types@[d]).spec_is_sink(),
            decreases n - i,
        {
            if types[i].is_sink() {
                saw_sink = true;
            }
            i = i + 1;
        }
        if !saw_sink {
            proof {
                assert forall|d: int|
                    0 <= d < defs@.len() implies !(factory.spec_get(
                    (#[trigger] defs@[d]).1.node_type@,
                ) matches Some(t) && t.spec_is_sink()) by {
                    assert(factory.spec_get(defs@[d].1.node_type@) == Option::Some(types@[d]));
                    assert(!types@[d].spec_is_sink());
                }
                assert(!some_sink(defs@, *factory));
            }
            return Err(Error::InvalidPipeline(InvalidPipeline::SourceProcessorsSinkOrder));
        }
        proof {
            let d0 = choose|d: int| 0 <= d < n && (#[trigger] types@[d]).spec_is_sink();
            assert(factory.spec_get(defs@[d0].1.node_type@) == Option::Some(types@[d0]));
            assert(some_sink(defs@, *factory));
        }

        // 3. Duplicate names are not representable in a keyed definition
        // set; a set that carries them is structurally malformed.
        let mut d1: usize = 0;
        while d1 < n
            invariant
                d1 <= n,
                n == defs@.len(),
                    defs@ == self.pipeline@,
                all_types_known(defs@, *factory),
                some_sink(defs@, *factory),
                forall|a: int, b: int|
                    #![trigger defs@[a], defs@[b]]
                    0 <= a < d1 && 0 <= b < n && a != b ==> defs@[a].0@ != defs@[b].0@,
            decreases n - d1,
        {
            let mut d2: usize = 0;
            while d2 < n
                invariant
                    d1 < n,
                    d2 <= n,
                    n == defs@.len(),
                    defs@ == self.pipeline@,
                    all_types_known(defs@, *factory),
                    some_sink(defs@, *factory),
                    forall|a: int, b: int|
                        #![trigger defs@[a], defs@[b]]
                        0 <= a < d1 && 0 <= b < n && a != b ==> defs@[a].0@ != defs@[b].0@,
                    forall|b: int|
                        0 <= b < d2 && d1 != b ==> (#[trigger] defs@[b]).0@ != defs@[d1 as int].0@,
                decreases n - d2,
            {
                if d2 != d1 {
                    if crate::text::str_eq(defs[d1].0.as_str(), defs[d2].0.as_str()) {
                        proof {
                            assert(defs@[d1 as int].0@ == defs@[d2 as int].0@);
                            assert(!names_unique(defs@));
                        }
                        return Err(Error::InvalidPipeline(InvalidPipeline::InvalidSyntax));
                    }
                }
                d2 = d2 + 1;
            }
            d1 = d1 + 1;
        }

        // 4. Resolve every declared input name to its definition.
        let mut resolved: Vec<Vec<usize>> = Vec::new();
        let mut d: usize = 0;
        while d < n
            invariant
                d <= n,
                n == defs@.len(),
                    defs@ == self.pipeline@,
                all_types_known(defs@, *factory),
                some_sink(defs@, *factory),
                names_unique(defs@),
                resolved@.len() == d,
                forall|a: int|
                    0 <= a < d ==> (#[trigger] resolved@[a])@.len() == defs@[a].1.inputs@.len(),
                forall|a: int, b: int|
                    #![trigger resolved@[a]@[b]]
                    0 <= a < d && 0 <= b < defs@[a].1.inputs@.len() ==> resolved@[a]@[b] < n
                        && resolved@[a]@[b] == name_index(defs@, defs@[a].1.inputs@[b]@),
            decreases n - d,
        {
            let m = defs[d].1.inputs.len();
            let mut row: Vec<usize> = Vec::new();
            let mut b: usize = 0;
            while b < m
                invariant
                    b <= m,
                    d < n,
                    n == defs@.len(),
                    defs@ == self.pipeline@,
                    all_types_known(defs@, *factory),
                    some_sink(defs@, *factory),
                    names_unique(defs@),
                    m == defs@[d as int].1.inputs@.len(),
                    row@.len() == b,
                    forall|b2: int|
                        0 <= b2 < b ==> (#[trigger] row@[b2]) < n && row@[b2] == name_index(
                            defs@,
                            defs@[d as int].1.inputs@[b2]@,
                        ),
                decreases m - b,
            {
                let idx = find_name(defs, defs[d].1.inputs[b].as_str());
                if idx == n {
                    proof {
                        lemma_name_index_not_found(defs@, defs@[d as int].1.inputs@[b as int]@, 0);
                        assert(!name_declared(defs@, defs@[d as int].1.inputs@[b as int]@));
                    }
                    return Err(Error::InvalidPipeline(InvalidPipeline::UnknownInput));
                }
                row.push(idx);
                b = b + 1;
            }
            resolved.push(row);
            d = d + 1;
        }

        proof {
            assert forall|a: int, b: int|
                0 <= a < defs@.len() && 0 <= b < defs@[a].1.inputs@.len() implies name_declared(
                defs@,
                (#[trigger] defs@[a].1.inputs@[b])@,
            ) by {
                assert(resolved@[a]@[b] < n && resolved@[a]@[b] == name_index(
                    defs@,
                    defs@[a].1.inputs@[b]@,
                ));
                lemma_name_index_le(defs@, defs@[a].1.inputs@[b]@);
                assert(defs@[name_index(defs@, defs@[a].1.inputs@[b]@)].0@ == defs@[a].1.inputs@[b]@);
            }
            assert(inputs_declared(defs@));
        }

        // 5. Build the dependency graph: a vertex per definition, an edge
        // from each input's definition to its consumer.
        let mut g = graph_new();
        let mut i: usize = 0;
        while i < n
            invariant
                i <= n,
                n == defs@.len(),
                    defs@ == self.pipeline@,
                all_types_known(defs@, *factory),
                some_sink(defs@, *factory),
                names_unique(defs@),
                inputs_declared(defs@),
                graph_nodes(g) == i,
                graph_edges(g) == Set::<(int, int)>::empty(),
            decreases n - i,
        {
            let _ = graph_add_node(&mut g);
            i = i + 1;
        }
        let mut d: usize = 0;
        while d < n
            invariant
                d <= n,
                n == defs@.len(),
                    defs@ == self.pipeline@,
                all_types_known(defs@, *factory),
                some_sink(defs@, *factory),
                names_unique(defs@),
                inputs_declared(defs@),
                graph_nodes(g) == n,
                resolved@.len() == n,
                forall|a: int|
                    0 <= a < n ==> (#[trigger] resolved@[a])@.len() == defs@[a].1.inputs@.len(),
                forall|a: int, b: int|
                    #![trigger resolved@[a]@[b]]
                    0 <= a < n && 0 <= b < defs@[a].1.inputs@.len() ==> resolved@[a]@[b] < n
                        && resolved@[a]@[b] == name_index(defs@, defs@[a].1.inputs@[b]@),
                forall|a: int, b: int|
                    #![trigger resolved@[a]@[b]]
                    0 <= a < d && 0 <= b < defs@[a].1.inputs@.len() ==> graph_edges(g).contains(
                        (resolved@[a]@[b] as int, a),
                    ),
                forall|p: (int, int)|
                    graph_edges(g).contains(p) ==> exists|a: int, b: int|
                        0 <= a < d && 0 <= b < defs@[a].1.inputs@.len() && p == ((
                        #[trigger] resolved@[a]@[b]) as int, a),
            decreases n - d,
        {
            let m = resolved[d].len();
            let mut b: usize = 0;
            while b < m
                invariant
                    b <= m,
                    d < n,
                    n == defs@.len(),
                    defs@ == self.pipeline@,
                    all_types_known(defs@, *factory),
                    some_sink(defs@, *factory),
                    names_unique(defs@),
                    inputs_declared(defs@),
                    graph_nodes(g) == n,
                    resolved@.len() == n,
                    m == resolved@[d as int]@.len(),
                    forall|a: int|
                        0 <= a < n ==> (#[trigger] resolved@[a])@.len() == defs@[a].1.inputs@.len(),
                    forall|a: int, b2: int|
                        #![trigger resolved@[a]@[b2]]
                        0 <= a < n && 0 <= b2 < defs@[a].1.inputs@.len() ==> resolved@[a]@[b2] < n
                            && resolved@[a]@[b2] == name_index(defs@, defs@[a].1.inputs@[b2]@),
                    forall|a: int, b2: int|
                        #![trigger resolved@[a]@[b2]]
                        0 <= a < d && 0 <= b2 < defs@[a].1.inputs@.len() ==> graph_edges(
                            g,
                        ).contains((resolved@[a]@[b2] as int, a)),
                    forall|b2: int|
                        0 <= b2 < b ==> graph_edges(g).contains(
                            ((#[trigger] resolved@[d as int]@[b2]) as int, d as int),
                        ),
                    forall|p: (int, int)|
                        graph_edges(g).contains(p) ==> exists|a: int, b2: int|
                            (0 <= a < d || (a == d && 0 <= b2 < b)) && 0 <= b2 < defs@[a].1.inputs@.len()
                                && p == ((#[trigger] resolved@[a]@[b2]) as int, a),
                decreases m - b,
            {
                let src = resolved[d][b];
                graph_add_edge(&mut g, src, d);
                b = b + 1;
            }
            d = d + 1;
        }
        proof {
            assert forall|p: (int, int)| graph_edges(g).contains(p) implies spec_edges(
                defs@,
            ).contains(p) by {
                let (a, b) = choose|a: int, b: int|
                    0 <= a < n && 0 <= b < defs@[a].1.inputs@.len() && p == ((
                    #[trigger] resolved@[a]@[b]) as int, a);
                assert(p == (name_index(defs@, defs@[a].1.inputs@[b]@), a));
            }
            assert forall|p: (int, int)| spec_edges(defs@).contains(p) implies graph_edges(
                g,
            ).contains(p) by {
                let (a, b) = choose|a: int, b: int|
                    0 <= a < defs@.len() && 0 <= b < defs@[a].1.inputs@.len() && p == (
                    name_index(defs@, (#[trigger] defs@[a].1.inputs@[b])@),
                    a,
                );
                assert(resolved@[a]@[b] == name_index(defs@, defs@[a].1.inputs@[b]@));
                assert(graph_edges(g).contains((resolved@[a]@[b] as int, a)));
            }
            assert(graph_edges(g) =~= spec_edges(defs@));
        }

        // 6. A topological order, or the cycle error.
        let order = match graph_toposort(&g) {
            Ok(o) => o,
            Err(_) => {
                return Err(Error::InvalidPipeline(InvalidPipeline::Cycle));
            },
        };
        proof {
            lemma_edges_in_range(defs@);
            lemma_topo_no_cycle(spec_edges(defs@), order@, n as int);
        }

        // 7. Validated video settings.
        let config = match self.video_config() {
            Ok(c) => c,
            Err(e) => {
                return Err(e);
            },
        };
        proof {
            assert(config.spec_fps() as int == self.chosen_fps());
        }

        // 8. Construct each node in dependency order, registering it at
        // its arena position before moving on.
        let mut pos: Vec<usize> = Vec::new();
        let mut i: usize = 0;
        while i < n
            invariant
                i <= n,
                n == defs@.len(),
                    defs@ == self.pipeline@,
                all_types_known(defs@, *factory),
                some_sink(defs@, *factory),
                names_unique(defs@),
                inputs_declared(defs@),
                !has_cycle(spec_edges(defs@)),
                pos@.len() == i,
                forall|v: int| 0 <= v < i ==> (#[trigger] pos@[v]) == n,
            decreases n - i,
        {
            pos.push(n);
            i = i + 1;
        }
        let mut nodes: Vec<Node<S>> = Vec::new();
        let mut names: Vec<String> = Vec::new();
        let mut sinks: Vec<NodeId> = Vec::new();
        let mut k: usize = 0;
        while k < n
            invariant
                k <= n,
                n == defs@.len(),
                    defs@ == self.pipeline@,
                all_types_known(defs@, *factory),
                some_sink(defs@, *factory),
                names_unique(defs@),
                inputs_declared(defs@),
                !has_cycle(spec_edges(defs@)),
                config.valid(),
                config.spec_fps() as int == self.chosen_fps(),
                order@.len() == n,
                topo_order_ok(n as int, spec_edges(defs@), order@),
                resolved@.len() == n,
                forall|a: int|
                    0 <= a < n ==> (#[trigger] resolved@[a])@.len() == defs@[a].1.inputs@.len(),
                forall|a: int, b: int|
                    #![trigger resolved@[a]@[b]]
                    0 <= a < n && 0 <= b < defs@[a].1.inputs@.len() ==> resolved@[a]@[b] < n
                        && resolved@[a]@[b] == name_index(defs@, defs@[a].1.inputs@[b]@),
                types@.len() == n,
                forall|a: int|
                    0 <= a < n ==> factory.spec_get((#[trigger] defs@[a]).1.node_type@)
                        == Option::Some(types@[a]),
                pos@.len() == n,
                nodes@.len() == k,
                names@.len() == k,
                forall|j: int| 0 <= j < k ==> pos@[(#[trigger] order@[j]) as int] == j,
                forall|v: int|
                    0 <= v < n && (#[trigger] pos@[v]) != n ==> pos@[v] < k && order@[pos@[v] as int]
                        == v,
                forall|j: int|
                    0 <= j < k ==> (#[trigger] nodes@[j]).node_wf(j, nodes@, config),
                forall|j: int|
                    0 <= j < k ==> (#[trigger] names@[j])@ == defs@[order@[j] as int].0@,
                forall|j: int|
                    0 <= j < k ==> node_matches_type(
                        #[trigger] nodes@[j],
                        types@[order@[j] as int],
                    ),
                forall|m: int|
                    0 <= m < sinks@.len() ==> (#[trigger] sinks@[m]) < k
                        && nodes@[sinks@[m] as int] is Rtsp,
                forall|m1: int, m2: int|
                    #![trigger sinks@[m1], sinks@[m2]]
                    0 <= m1 < m2 < sinks@.len() ==> sinks@[m1] < sinks@[m2],
                forall|j: int|
                    0 <= j < k && (#[trigger] nodes@[j]) is Rtsp ==> sinks@.contains(j as usize),
            decreases n - k,
        {
            let dd = order[k];
            let m = resolved[dd].len();
            let mut inputs: Vec<usize> = Vec::new();
            let mut b: usize = 0;
            while b < m
                invariant
                    b <= m,
                    k < n,
                    dd == order@[k as int],
                    dd < n,
                    n == defs@.len(),
                    defs@ == self.pipeline@,
                    all_types_known(defs@, *factory),
                    some_sink(defs@, *factory),
                    names_unique(defs@),
                    inputs_declared(defs@),
                    !has_cycle(spec_edges(defs@)),
                    order@.len() == n,
                    topo_order_ok(n as int, spec_edges(defs@), order@),
                    resolved@.len() == n,
                    pos@.len() == n,
                    nodes@.len() == k,
                    m == resolved@[dd as int]@.len(),
                    forall|a: int, b2: int|
                        #![trigger resolved@[a]@[b2]]
                        0 <= a < n && 0 <= b2 < defs@[a].1.inputs@.len() ==> resolved@[a]@[b2] < n
                            && resolved@[a]@[b2] == name_index(defs@, defs@[a].1.inputs@[b2]@),
                    forall|a: int|
                        0 <= a < n ==> (#[trigger] resolved@[a])@.len()
                            == defs@[a].1.inputs@.len(),
                    forall|j: int| 0 <= j < k ==> pos@[(#[trigger] order@[j]) as int] == j,
                    forall|v: int|
                        0 <= v < n && (#[trigger] pos@[v]) != n ==> pos@[v] < k,
                    types@.len() == n,
                    forall|a: int|
                        0 <= a < n ==> factory.spec_get((#[trigger] defs@[a]).1.node_type@)
                            == Option::Some(types@[a]),
                    forall|j: int|
                        0 <= j < k ==> node_matches_type(
                            #[trigger] nodes@[j],
                            types@[order@[j] as int],
                        ),
                    forall|v: int|
                        0 <= v < n && (#[trigger] pos@[v]) != n ==> order@[pos@[v] as int] == v,
                    inputs@.len() == b,
                    forall|b2: int| 0 <= b2 < b ==> (#[trigger] inputs@[b2]) < k,
                    forall|b2: int|
                        0 <= b2 < b ==> (#[trigger] inputs@[b2]) == pos@[resolved@[dd as int]@[b2] as int],
                decreases m - b,
            {
                let src = resolved[dd][b];
                proof {
                    assert(resolved@[dd as int]@.len() == defs@[dd as int].1.inputs@.len());
                    assert(b < defs@[dd as int].1.inputs@.len());
                    assert(resolved@[dd as int]@[b as int] == name_index(
                        defs@,
                        defs@[dd as int].1.inputs@[b as int]@,
                    ));
                    assert(spec_edges(defs@).contains((src as int, dd as int)));
                    assert(appears(order@, src as int));
                    let j0 = choose|j: int|
                        0 <= j < order@.len() && (#[trigger] order@[j]) == src as int;
                    assert(spec_edges(defs@).contains(
                        (order@[j0] as int, order@[k as int] as int),
                    ));
                    assert(j0 < k);
                    assert(pos@[src as int] == j0);
                }
                let p = pos[src];
                assert(p != n);
                inputs.push(p);
                b = b + 1;
            }
            let node: Node<S> = match factory.construct(
                defs[dd].1.node_type.as_str(),
                &nodes,
                inputs,
                &defs[dd].1.options,
                config,
                sample_rate,
            ) {
                Ok(nd) => nd,
                Err(e) => {
                    proof {
                        assert(factory.spec_get((defs@[dd as int]).1.node_type@) is Some);
                        if def_construct_ok(
                            defs@,
                            *factory,
                            self.chosen_fps(),
                            sample_rate,
                            dd as int,
                        ) {
                            lemma_construction_succeeds(
                                defs@,
                                *factory,
                                types@,
                                order@,
                                nodes@,
                                pos@,
                                resolved@,
                                inputs@,
                                config,
                                sample_rate,
                                dd as int,
                                k as int,
                            );
                            assert(construct_ok(
                                types@[dd as int],
                                nodes@,
                                inputs@,
                                defs@[dd as int].1.options,
                                config,
                                sample_rate,
                            ));
                            assert(false);
                        }
                    }
                    return Err(e);
                },
            };
            names.push(defs[dd].0.clone());
            let ghost pre_sinks = sinks@;
            if node.is_sink() {
                sinks.push(k);
            }
            let ghost pre_nodes = nodes@;
            nodes.push(node);
            pos[dd] = k;
            proof {
                assert forall|j: int|
                    0 <= j < k + 1 && (#[trigger] nodes@[j]) is Rtsp implies sinks@.contains(
                    j as usize,
                ) by {
                    if j < k {
                        assert(pre_nodes[j] is Rtsp);
                        assert(pre_sinks.contains(j as usize));
                        let i0 = choose|i0: int|
                            0 <= i0 < pre_sinks.len() && pre_sinks[i0] == j as usize;
                        assert(sinks@[i0] == j as usize);
                    } else {
                        assert(sinks@[sinks@.len() - 1] == k as usize);
                    }
                }
                assert forall|j: int| 0 <= j < nodes@.len() implies (
                #[trigger] nodes@[j]).node_wf(j, nodes@, config) by {
                    if j < pre_nodes.len() {
                        assert(pre_nodes[j].node_wf(j, pre_nodes, config));
                    }
                }
            }
            k = k + 1;
        }
        let p = Pipeline::from_parts(nodes, names, sinks, config);
        proof {
            assert(p.wf());
        }
        Ok(p)
    }
}

} // verus!
