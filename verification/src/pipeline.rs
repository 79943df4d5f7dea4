//! The capability-typed node graph and its pull protocol.
//!
//! Nodes live in one arena, ordered so that every node's inputs sit at
//! smaller indices; pulls recurse along that order, which is why they
//! terminate. Every stateful node caches its last result keyed by
//! [`FrameId`], so each value is computed at most once per tick however
//! large the fan-out is.

use vstd::prelude::*;

use crate::fixed::{spec_min, NUM_MAX, SCALE};
use crate::options::Options;
use crate::processors::average::{average_step, Average};
use crate::processors::circle::{circle_pixel, Circle, MAX_RADIUS};
use crate::processors::equalizer::{equalizer_pixel, Equalizer};
use crate::processors::loudness::{is_rms, Loudness};
use crate::processors::merge::{combined_pixel, weighted_pixel, Merge};
use crate::processors::spectrum::SpectrumNode;
use crate::sinks::rtsp::RtspSink;
use crate::sources::device::DeviceSource;
use crate::sources::random_color::{cell_pixel, RandomColor};
use crate::util::audio::{pushed, tail_window, AudioBuffer};
use crate::util::spectrum::{slice_bounds, spectrum_len, ComputeSpectrum, Spectrum};
use crate::util::video::{VideoConfig, VideoFrame};
use crate::util::{Error, FrameId};

verus! {

/// The pull operations a node may support.
#[derive(Debug, Clone, Copy, PartialEq, Eq, Hash, Structural)]
pub enum Capability {
    ProvideAudioData,
    ProvideVideoFrame,
    ProvideSpectrum,
    ProvideNumber,
}

/// Index of a node inside its pipeline's arena.
pub type NodeId = usize;

/// One graph node: a tagged union of every concrete kind.
#[derive(Debug)]
pub enum Node<S> {
    Average(Average),
    Circle(Circle),
    Equalizer(Equalizer),
    Loudness(Loudness),
    Merge(Merge),
    Spectrum(SpectrumNode<S>),
    Device(DeviceSource),
    RandomColor(RandomColor),
    Rtsp(RtspSink),
}

impl<S: ComputeSpectrum> Node<S> {
    /// Which capabilities this node satisfies; fixed per kind.
    pub open spec fn provides(self, cap: Capability) -> bool {
        match self {
            Node::Average(_) => cap is ProvideNumber,
            Node::Circle(_) => cap is ProvideVideoFrame,
            Node::Equalizer(_) => cap is ProvideVideoFrame,
            Node::Loudness(_) => cap is ProvideNumber,
            Node::Merge(_) => cap is ProvideVideoFrame,
            Node::Spectrum(_) => cap is ProvideSpectrum,
            Node::Device(_) => cap is ProvideAudioData,
            Node::RandomColor(_) => cap is ProvideVideoFrame,
            Node::Rtsp(_) => false,
        }
    }

    pub open spec fn spec_is_sink(self) -> bool {
        self is Rtsp
    }

    pub fn has_capability(&self, cap: Capability) -> (r: bool)
        ensures
            r == self.provides(cap),
    {
        match self {
            Node::Average(_) => matches!(cap, Capability::ProvideNumber),
            Node::Circle(_) => matches!(cap, Capability::ProvideVideoFrame),
            Node::Equalizer(_) => matches!(cap, Capability::ProvideVideoFrame),
            Node::Loudness(_) => matches!(cap, Capability::ProvideNumber),
            Node::Merge(_) => matches!(cap, Capability::ProvideVideoFrame),
            Node::Spectrum(_) => matches!(cap, Capability::ProvideSpectrum),
            Node::Device(_) => matches!(cap, Capability::ProvideAudioData),
            Node::RandomColor(_) => matches!(cap, Capability::ProvideVideoFrame),
            Node::Rtsp(_) => false,
        }
    }

    pub fn is_sink(&self) -> (r: bool)
        ensures
            r == self.spec_is_sink(),
    {
        matches!(self, Node::Rtsp(_))
    }

    /// Two nodes of the same kind and configuration; only mutable state may
    /// differ.
    pub open spec fn shape_eq(self, other: Node<S>) -> bool {
        match (self, other) {
            (Node::Average(a), Node::Average(b)) => a.input == b.input && a.alpha == b.alpha,
            (Node::Circle(a), Node::Circle(b)) => a.input == b.input,
            (Node::Equalizer(a), Node::Equalizer(b)) => a.input == b.input,
            (Node::Loudness(a), Node::Loudness(b)) => a.input == b.input,
            (Node::Merge(a), Node::Merge(b)) => a.inputs@ == b.inputs@ && a.contributions@
                == b.contributions@ && a.mode == b.mode,
            (Node::Spectrum(a), Node::Spectrum(b)) => a.input == b.input && a.store.same_config(
                b.store,
            ),
            (Node::Device(a), Node::Device(b)) => a.buf.same_config(b.buf),
            (Node::RandomColor(a), Node::RandomColor(b)) => a.cells@ == b.cells@
                && a.counter.modulo_val() == b.counter.modulo_val(),
            (Node::Rtsp(a), Node::Rtsp(b)) => a.input == b.input,
            _ => false,
        }
    }

    /// The last scalar a number-providing node computed.
    pub open spec fn cached_number(self) -> int {
        match self {
            Node::Average(a) => a.average as int,
            Node::Loudness(l) => l.value as int,
            _ => 0,
        }
    }

    /// Internal validity of one node at position `idx`: inputs resolved to
    /// earlier indices with matching capabilities, and state in range.
    pub open spec fn node_wf(self, idx: int, nodes: Seq<Node<S>>, config: VideoConfig) -> bool {
        match self {
            Node::Average(a) => a.input < idx && nodes[a.input as int].provides(
                Capability::ProvideNumber,
            ) && a.alpha <= SCALE && a.average <= NUM_MAX,
            Node::Circle(c) => c.input < idx && nodes[c.input as int].provides(
                Capability::ProvideNumber,
            ),
            Node::Equalizer(e) => e.input < idx && nodes[e.input as int].provides(
                Capability::ProvideSpectrum,
            ),
            Node::Loudness(l) => l.input < idx && nodes[l.input as int].provides(
                Capability::ProvideAudioData,
            ) && l.value <= NUM_MAX,
            Node::Merge(m) => m.inputs@.len() >= 1 && m.contributions@.len() == m.inputs@.len()
                && (forall|k: int|
                0 <= k < m.inputs@.len() ==> (#[trigger] m.inputs@[k]) < idx
                    && nodes[m.inputs@[k] as int].provides(Capability::ProvideVideoFrame)) && (
            forall|k: int| 0 <= k < m.contributions@.len() ==> (#[trigger] m.contributions@[k])
                <= NUM_MAX),
            Node::Spectrum(sp) => sp.input < idx && nodes[sp.input as int].provides(
                Capability::ProvideAudioData,
            ) && sp.store.wf(),
            Node::Device(d) => d.buf.wf() && d.cache.wf() && d.buf.same_config(d.cache) && 1
                <= d.buf.spec_sample_rate() <= 1_000_000,
            Node::RandomColor(r) => r.counter.wf() && r.cache.wf() && r.cache.spec_width()
                == config.spec_width() && r.cache.spec_height() == config.spec_height(),
            Node::Rtsp(k) => k.input < idx && nodes[k.input as int].provides(
                Capability::ProvideVideoFrame,
            ),
        }
    }
}

/// The live object graph: nodes in dependency order, the declared name of
/// each, the validated video settings, and the indices of the sinks.
#[verifier::ext_equal]
pub struct Pipeline<S> {
    nodes: Vec<Node<S>>,
    names: Vec<String>,
    sinks: Vec<NodeId>,
    config: VideoConfig,
}

impl<S: ComputeSpectrum> Pipeline<S> {
    pub closed spec fn spec_nodes(self) -> Seq<Node<S>> {
        self.nodes@
    }

    pub closed spec fn spec_names(self) -> Seq<String> {
        self.names@
    }

    pub closed spec fn spec_sinks(self) -> Seq<NodeId> {
        self.sinks@
    }

    pub closed spec fn spec_config(self) -> VideoConfig {
        self.config
    }

    pub open spec fn wf(self) -> bool {
        &&& self.spec_names().len() == self.spec_nodes().len()
        &&& self.spec_config().valid()
        &&& forall|i: int|
            0 <= i < self.spec_nodes().len() ==> (#[trigger] self.spec_nodes()[i]).node_wf(
                i,
                self.spec_nodes(),
                self.spec_config(),
            )
        &&& forall|i: int|
            0 <= i < self.spec_sinks().len() ==> (#[trigger] self.spec_sinks()[i])
                < self.spec_nodes().len() && self.spec_nodes()[self.spec_sinks()[i] as int]
                is Rtsp
    }

    /// Same graph structure: only node state may differ.
    pub open spec fn same_shape(self, other: Pipeline<S>) -> bool {
        &&& self.spec_nodes().len() == other.spec_nodes().len()
        &&& forall|i: int|
            0 <= i < self.spec_nodes().len() ==> (#[trigger] self.spec_nodes()[i]).shape_eq(
                other.spec_nodes()[i],
            )
        &&& self.spec_names() == other.spec_names()
        &&& self.spec_sinks() == other.spec_sinks()
        &&& self.spec_config() == other.spec_config()
    }

    pub fn from_parts(
        nodes: Vec<Node<S>>,
        names: Vec<String>,
        sinks: Vec<NodeId>,
        config: VideoConfig,
    ) -> (p: Pipeline<S>)
        ensures
            p.spec_nodes() == nodes@,
            p.spec_names() == names@,
            p.spec_sinks() == sinks@,
            p.spec_config() == config,
    {
        Pipeline { nodes, names, sinks, config }
    }

    pub fn node_count(&self) -> (n: usize)
        ensures
            n == self.spec_nodes().len(),
    {
        self.nodes.len()
    }

    pub fn config(&self) -> (c: VideoConfig)
        ensures
            c == self.spec_config(),
    {
        self.config
    }

    /// The sink handles, in declaration order of the sink-typed nodes.
    pub fn sinks(&self) -> (s: Vec<NodeId>)
        ensures
            s@ == self.spec_sinks(),
    {
        let mut s: Vec<NodeId> = Vec::new();
        let mut i: usize = 0;
        while i < self.sinks.len()
            invariant
                i <= self.sinks@.len(),
                s@ == self.sinks@.subrange(0, i as int),
            decreases self.sinks@.len() - i,
        {
            let v = self.sinks[i];
            s.push(v);
            i = i + 1;
            proof {
                assert(s@ =~= self.sinks@.subrange(0, i as int));
            }
        }
        proof {
            assert(s@ =~= self.sinks@);
        }
        s
    }

    pub fn has_capability(&self, node: NodeId, cap: Capability) -> (r: bool)
        requires
            node < self.spec_nodes().len(),
        ensures
            r == self.spec_nodes()[node as int].provides(cap),
    {
        self.nodes[node].has_capability(cap)
    }

    pub fn is_sink(&self, node: NodeId) -> (r: bool)
        requires
            node < self.spec_nodes().len(),
        ensures
            r == self.spec_nodes()[node as int].spec_is_sink(),
    {
        self.nodes[node].is_sink()
    }

    /// Whether a node is the audio-capture adapter, whose ring buffer the
    /// capture callback feeds.
    pub fn is_device(&self, node: NodeId) -> (r: bool)
        requires
            node < self.spec_nodes().len(),
        ensures
            r == self.spec_nodes()[node as int] is Device,
    {
        matches!(&self.nodes[node], Node::Device(_))
    }

    /// Feed one chunk of captured samples into a device node's ring buffer.
    /// A chunk larger than the buffer's bounded capacity is rejected.
    pub fn push_audio(&mut self, node: NodeId, chunk: &[i32]) -> (accepted: bool)
        requires
            old(self).wf(),
            node < old(self).spec_nodes().len(),
            old(self).spec_nodes()[node as int] is Device,
        ensures
            final(self).wf(),
            final(self).same_shape(*old(self)),
            match (old(self).spec_nodes()[node as int], final(self).spec_nodes()[node as int]) {
                (Node::Device(d0), Node::Device(d1)) => {
                    &&& (accepted <==> chunk@.len() <= d0.buf.spec_buf_size())
                    &&& accepted ==> d1.buf@ == pushed(
                        d0.buf@,
                        chunk@,
                        d0.buf.spec_buf_size() as int,
                    )
                    &&& !accepted ==> d1.buf@ == d0.buf@
                    &&& d1.cache == d0.cache
                    &&& d1.last == d0.last
                },
                _ => false,
            },
            forall|j: int|
                0 <= j < final(self).spec_nodes().len() && j != node ==> final(self).spec_nodes()[j]
                    == old(self).spec_nodes()[j],
    {
        let r = match &mut self.nodes[node] {
            Node::Device(d) => d.buf.push(chunk),
            _ => false,
        };
        proof {
            assert forall|i: int|
                0 <= i < self.spec_nodes().len() implies (#[trigger] self.spec_nodes()[i]).node_wf(
                i,
                self.spec_nodes(),
                self.spec_config(),
            ) by {
                assert(old(self).spec_nodes()[i].node_wf(
                    i,
                    old(self).spec_nodes(),
                    old(self).spec_config(),
                ));
            }
        }
        r
    }
}

/// Pad a sample block on the front with zeroes up to `n` samples.
fn pad_to(data: Vec<i32>, n: usize) -> (r: Vec<i32>)
    requires
        data@.len() <= n,
    ensures
        r@.len() == n,
        r@.subrange(n - data@.len(), n as int) == data@,
        forall|i: int| 0 <= i < n - data@.len() ==> r@[i] == 0i32,
{
    if data.len() == n {
        proof {
            assert(data@.subrange(0, n as int) =~= data@);
        }
        return data;
    }
    let pad = n - data.len();
    let mut r: Vec<i32> = Vec::new();
    let mut i: usize = 0;
    while i < pad
        invariant
            i <= pad,
            r@.len() == i,
            forall|k: int| 0 <= k < i ==> r@[k] == 0i32,
        decreases pad - i,
    {
        r.push(0);
        i = i + 1;
    }
    let mut j: usize = 0;
    while j < data.len()
        invariant
            j <= data@.len(),
            r@.len() == pad + j,
            pad == n - data@.len(),
            forall|k: int| 0 <= k < pad ==> r@[k] == 0i32,
            r@.subrange(pad as int, (pad + j) as int) == data@.subrange(0, j as int),
        decreases data@.len() - j,
    {
        let v = data[j];
        r.push(v);
        j = j + 1;
        proof {
            assert(r@.subrange(pad as int, (pad + j) as int) =~= data@.subrange(0, j as int));
        }
    }
    proof {
        assert(r@.subrange(pad as int, n as int) =~= data@);
    }
    r
}

/// The pixel a weighted merge chain produces at `(x, y)`: the first frame
/// weighted, every further frame weighted and combined under the mode.
pub open spec fn merge_chain<S: ComputeSpectrum>(
    frames: Seq<VideoFrame>,
    cs: Seq<u64>,
    mode: crate::processors::merge::Mode,
    x: int,
    y: int,
) -> crate::util::video::Pixel
    decreases frames.len(),
{
    if frames.len() <= 1 {
        weighted_pixel(frames[0].pixel_at(x, y), cs[0] as int)
    } else {
        combined_pixel(
            mode,
            merge_chain::<S>(frames.drop_last(), cs, mode, x, y),
            frames.last().pixel_at(x, y),
            cs[frames.len() - 1] as int,
        )
    }
}

/// Everything one video pull guarantees, as one relation between the
/// pipeline states and the frame before (`f0`) and after (`f1`) the pull:
/// the graph keeps its shape, nodes above the pulled one are untouched, the
/// frame keeps its dimensions, and its new content is pinned per node kind.
/// A merge's content is the weighted combine chain over the frames its
/// inputs produced, the first rendered over `f0`, the rest over cleared
/// scratch frames, through a chain of intermediate pipeline states.
pub open spec fn video_pull<S: ComputeSpectrum>(
    pre: Pipeline<S>,
    post: Pipeline<S>,
    node: int,
    id: FrameId,
    f0: VideoFrame,
    f1: VideoFrame,
) -> bool
    decreases node, 0int,
{
    &&& post.wf()
    &&& post.same_shape(pre)
    &&& (forall|j: int|
        node < j < post.spec_nodes().len() ==> post.spec_nodes()[j] == pre.spec_nodes()[j])
    &&& f1.wf()
    &&& f1.same_dims(f0)
    &&& (pre.spec_nodes()[node] matches Node::Circle(c0) ==> ({
        let w = pre.spec_config().spec_width() as int;
        let h = pre.spec_config().spec_height() as int;
        let radius = (post.spec_nodes()[c0.input as int].cached_number() * spec_min(w, h)) / (
        SCALE as int);
        forall|x: int, y: int|
            0 <= x < w && 0 <= y < h ==> f1.pixel_at(x, y) == circle_pixel(
                f0.pixel_at(x, y),
                x,
                y,
                w / 2,
                h / 2,
                radius,
            )
    }))
    &&& (pre.spec_nodes()[node] matches Node::Equalizer(e0) ==> (match post.spec_nodes()[e0.input as int] {
        Node::Spectrum(sp) => match post.spec_nodes()[sp.input as int] {
            Node::Device(d) => ({
                let w = pre.spec_config().spec_width() as int;
                let h = pre.spec_config().spec_height() as int;
                let full_len = spectrum_len(sp.store.spec_window_len() as int);
                let bounds = slice_bounds(
                    sp.store.spec_window_len() as int,
                    sp.store.spec_range(),
                    full_len,
                    d.buf.spec_sample_rate() as int,
                );
                let bins = sp.store.spec_cached().subrange(bounds.0, bounds.1);
                &&& (bins.len() == 0 ==> f1@ == f0@)
                &&& (bins.len() >= 1 ==> ({
                    let bw = ((w + bins.len() - 1) as int) / (bins.len() as int);
                    forall|x: int, y: int|
                        0 <= x < w && 0 <= y < h ==> f1.pixel_at(x, y) == equalizer_pixel(
                            f0.pixel_at(x, y),
                            x,
                            y,
                            h,
                            bins,
                            bw,
                        )
                }))
            }),
            _ => false,
        },
        _ => false,
    }))
    &&& (pre.spec_nodes()[node] matches Node::Merge(m0) ==> ({
        let w = pre.spec_config().spec_width() as int;
        let h = pre.spec_config().spec_height() as int;
        let n = m0.inputs@.len() as int;
        exists|fs: Seq<VideoFrame>, ps: Seq<Pipeline<S>>|
            #![trigger fs.len(), ps.len()]
            {
                &&& fs.len() == n
                &&& ps.len() == n + 1
                &&& n >= 1
                &&& ps[0] == pre
                &&& ps[n] == post
                &&& m0.inputs@[0] < node
                &&& video_pull(ps[0], ps[1], m0.inputs@[0] as int, id, f0, fs[0])
                &&& (forall|k: int|
                    1 <= k < n ==> ((#[trigger] m0.inputs@[k]) < node && zeroed_pull(
                        ps[k],
                        ps[k + 1],
                        m0.inputs@[k] as int,
                        id,
                        f0,
                        fs[k],
                    )))
                &&& (forall|x: int, y: int|
                    0 <= x < w && 0 <= y < h ==> f1.pixel_at(x, y) == merge_chain::<S>(
                        fs,
                        m0.contributions@,
                        m0.mode,
                        x,
                        y,
                    ))
            }
    }))
    &&& (pre.spec_nodes()[node] matches Node::RandomColor(r0) ==> (match post.spec_nodes()[node] {
        Node::RandomColor(r1) => {
            &&& r1.last == id
            &&& f1@ == r1.cache@
            &&& (r0.last == id ==> post == pre && f1@ == r0.cache@)
            &&& (r0.last != id ==> {
                &&& r1.counter.counter_val() as int == ((r0.counter.counter_val() + 1) as int) % (
                r0.counter.modulo_val() as int)
                &&& (r0.counter.counter_val() != 0 ==> r1.cache == r0.cache)
                &&& (r0.counter.counter_val() == 0 ==> exists|colors: Seq<(u8, u8, u8)>|
                    {
                        &&& #[trigger] colors.len() == r0.cells@.len()
                        &&& forall|x: int, y: int|
                            0 <= x < r1.cache.spec_width() && 0 <= y < r1.cache.spec_height()
                                ==> r1.cache.pixel_at(x, y) == cell_pixel(
                                r0.cache.pixel_at(x, y),
                                x,
                                y,
                                r0.cells@,
                                colors,
                            )
                    })
            })
        },
        _ => false,
    }))
}

/// A video pull rendered over a cleared scratch frame of `f0`'s size: what
/// one external tick of a sink, and each non-first merge input, observes.
pub open spec fn zeroed_pull<S: ComputeSpectrum>(
    pre: Pipeline<S>,
    post: Pipeline<S>,
    node: int,
    id: FrameId,
    f0: VideoFrame,
    f1: VideoFrame,
) -> bool
    decreases node, 1int,
{
    exists|mid: VideoFrame|
        {
            &&& #[trigger] mid.wf()
            &&& mid.same_dims(f0)
            &&& (forall|i: int| 0 <= i < mid@.len() ==> mid@[i] == 0u8)
            &&& video_pull(pre, post, node, id, mid, f1)
        }
}

impl<S: ComputeSpectrum> Pipeline<S> {
    /// Pull a scalar for one tick. The node computes at most once per tick:
    /// a repeated pull with the same identity returns the cached value and
    /// changes nothing.
    pub fn provide_number(&mut self, node: NodeId, id: FrameId) -> (v: u64)
        requires
            old(self).wf(),
            node < old(self).spec_nodes().len(),
            old(self).spec_nodes()[node as int].provides(Capability::ProvideNumber),
            id.id_val() != 0,
        ensures
            final(self).wf(),
            final(self).same_shape(*old(self)),
            forall|j: int|
                node < j < final(self).spec_nodes().len() ==> final(self).spec_nodes()[j] == old(
                    self,
                ).spec_nodes()[j],
            v <= NUM_MAX,
            v == final(self).spec_nodes()[node as int].cached_number(),
            number_pull(*old(self), *final(self), node as int, id, v),
            match (old(self).spec_nodes()[node as int], final(self).spec_nodes()[node as int]) {
                (Node::Average(a0), Node::Average(a1)) => {
                    &&& a1.last == id
                    &&& a1.average == v
                    &&& (a0.last == id ==> *final(self) == *old(self) && v == a0.average)
                    &&& (a0.last != id ==> v == average_step(
                        a0.alpha as int,
                        a0.average as int,
                        final(self).spec_nodes()[a0.input as int].cached_number(),
                    ))
                },
                (Node::Loudness(l0), Node::Loudness(l1)) => {
                    &&& l1.last == id
                    &&& l1.value == v
                    &&& (l0.last == id ==> *final(self) == *old(self) && v == l0.value)
                    &&& (l0.last != id ==> match final(self).spec_nodes()[l0.input as int] {
                        Node::Device(d) => is_rms(
                            tail_window(
                                d.cache@,
                                spec_min(
                                    d.cache.spec_frame_size() as int,
                                    d.cache.spec_buf_size() as int,
                                ),
                            ),
                            v as int,
                        ),
                        _ => false,
                    })
                },
                _ => false,
            },
        decreases node,
    {
        let avg_info: Option<(usize, u64, FrameId, u64)> = match &self.nodes[node] {
            Node::Average(a) => Some((a.input, a.alpha, a.last, a.average)),
            _ => None,
        };
        if let Some((input, alpha, last, average)) = avg_info {
            if last == id {
                return average;
            }
            let x = self.provide_number(input, id);
            let v = crate::processors::average::step(alpha, average, x);
            match &mut self.nodes[node] {
                Node::Average(a) => {
                    a.last = id;
                    a.average = v;
                },
                _ => {},
            }
            proof {
                assert forall|i: int|
                    0 <= i < self.spec_nodes().len() implies (
                #[trigger] self.spec_nodes()[i]).node_wf(
                    i,
                    self.spec_nodes(),
                    self.spec_config(),
                ) by {
                    assert(old(self).spec_nodes()[i].node_wf(
                        i,
                        old(self).spec_nodes(),
                        old(self).spec_config(),
                    ));
                }
            }
            v
        } else {
            let (input, last, value) = match &self.nodes[node] {
                Node::Loudness(l) => (l.input, l.last, l.value),
                _ => vstd::pervasive::unreached(),
            };
            if last == id {
                return value;
            }
            let audio = self.provide_audio_data(input, id);
            let window = audio.frames(1);
            let v = crate::processors::loudness::rms(&window);
            match &mut self.nodes[node] {
                Node::Loudness(l) => {
                    l.last = id;
                    l.value = v;
                },
                _ => {},
            }
            proof {
                assert forall|i: int|
                    0 <= i < self.spec_nodes().len() implies (
                #[trigger] self.spec_nodes()[i]).node_wf(
                    i,
                    self.spec_nodes(),
                    self.spec_config(),
                ) by {
                    assert(old(self).spec_nodes()[i].node_wf(
                        i,
                        old(self).spec_nodes(),
                        old(self).spec_config(),
                    ));
                }
            }
            v
        }
    }

    /// Pull the audio snapshot for one tick: the ring buffer's contents are
    /// captured at the tick's first pull and served unchanged for the rest
    /// of the tick.
    pub fn provide_audio_data(&mut self, node: NodeId, id: FrameId) -> (r: AudioBuffer)
        requires
            old(self).wf(),
            node < old(self).spec_nodes().len(),
            old(self).spec_nodes()[node as int].provides(Capability::ProvideAudioData),
            id.id_val() != 0,
        ensures
            final(self).wf(),
            final(self).same_shape(*old(self)),
            forall|j: int|
                0 <= j < final(self).spec_nodes().len() && j != node ==> final(self).spec_nodes()[j]
                    == old(self).spec_nodes()[j],
            r.wf(),
            audio_pull(*old(self), *final(self), node as int, id, r),
            match (old(self).spec_nodes()[node as int], final(self).spec_nodes()[node as int]) {
                (Node::Device(d0), Node::Device(d1)) => {
                    &&& d1.last == id
                    &&& d1.buf == d0.buf
                    &&& (d0.last == id ==> *final(self) == *old(self))
                    &&& (d0.last != id ==> d1.cache@ == d0.buf@)
                    &&& d1.cache.same_config(d0.buf)
                    &&& r@ == d1.cache@
                    &&& r.same_config(d0.buf)
                },
                _ => false,
            },
        decreases node,
    {
        let last = match &self.nodes[node] {
            Node::Device(d) => d.last,
            _ => vstd::pervasive::unreached(),
        };
        if !(last == id) {
            let snap = match &self.nodes[node] {
                Node::Device(d) => d.buf.snapshot(),
                _ => vstd::pervasive::unreached(),
            };
            match &mut self.nodes[node] {
                Node::Device(d) => {
                    d.last = id;
                    d.cache = snap;
                },
                _ => {},
            }
        }
        let out = match &self.nodes[node] {
            Node::Device(d) => d.cache.snapshot(),
            _ => vstd::pervasive::unreached(),
        };
        proof {
            assert forall|i: int|
                0 <= i < self.spec_nodes().len() implies (#[trigger] self.spec_nodes()[i]).node_wf(
                i,
                self.spec_nodes(),
                self.spec_config(),
            ) by {
                assert(old(self).spec_nodes()[i].node_wf(
                    i,
                    old(self).spec_nodes(),
                    old(self).spec_config(),
                ));
            }
        }
        out
    }

    /// Pull the spectrum for one tick. The transform runs at most once per
    /// tick; the slice to the configured frequency range is recomputed from
    /// the cached full spectrum on every pull.
    pub fn provide_spectrum(&mut self, node: NodeId, id: FrameId) -> (s: Spectrum)
        requires
            old(self).wf(),
            node < old(self).spec_nodes().len(),
            old(self).spec_nodes()[node as int].provides(Capability::ProvideSpectrum),
            id.id_val() != 0,
        ensures
            final(self).wf(),
            final(self).same_shape(*old(self)),
            forall|j: int|
                node < j < final(self).spec_nodes().len() ==> final(self).spec_nodes()[j] == old(
                    self,
                ).spec_nodes()[j],
            s.wf(),
            spectrum_pull(*old(self), *final(self), node as int, id, s),
            match (old(self).spec_nodes()[node as int], final(self).spec_nodes()[node as int]) {
                (Node::Spectrum(sp0), Node::Spectrum(sp1)) => {
                    &&& sp1.store.spec_last_id() == id
                    &&& sp1.store.same_config(sp0.store)
                    &&& (sp0.store.spec_last_id() == id ==> sp1.store == sp0.store)
                    &&& sp1.store.spec_cached().len() == spectrum_len(
                        sp1.store.spec_window_len() as int,
                    )
                    &&& s.spec_window_len() == sp0.store.spec_window_len()
                    &&& match final(self).spec_nodes()[sp0.input as int] {
                        Node::Device(d) => ({
                            let full_len = spectrum_len(sp1.store.spec_window_len() as int);
                            let bounds = slice_bounds(
                                sp1.store.spec_window_len() as int,
                                sp1.store.spec_range(),
                                full_len,
                                d.buf.spec_sample_rate() as int,
                            );
                            &&& s.spec_bin0() == bounds.0
                            &&& s.spec_bins() == sp1.store.spec_cached().subrange(
                                bounds.0,
                                bounds.1,
                            )
                        }),
                        _ => false,
                    }
                },
                _ => false,
            },
        decreases node,
    {
        let (input, window_len) = match &self.nodes[node] {
            Node::Spectrum(sp) => (sp.input, sp.store.window_len()),
            _ => vstd::pervasive::unreached(),
        };
        let audio = self.provide_audio_data(input, id);
        let sr = audio.sample_rate();
        let data0 = audio.exact(window_len);
        let data = pad_to(data0, window_len);
        let s = match &mut self.nodes[node] {
            Node::Spectrum(sp) => sp.store.compute(id, &data, sr),
            _ => vstd::pervasive::unreached(),
        };
        proof {
            assert forall|i: int|
                0 <= i < self.spec_nodes().len() implies (#[trigger] self.spec_nodes()[i]).node_wf(
                i,
                self.spec_nodes(),
                self.spec_config(),
            ) by {
                assert(old(self).spec_nodes()[i].node_wf(
                    i,
                    old(self).spec_nodes(),
                    old(self).spec_config(),
                ));
            }
        }
        s
    }
}

/// Copy a vector of indices.
fn copy_usize_vec(v: &Vec<usize>) -> (r: Vec<usize>)
    ensures
        r@ == v@,
{
    let r = v.clone();
    assert(r@ =~= v@);
    r
}

/// Copy a vector of weights.
fn copy_u64_vec(v: &Vec<u64>) -> (r: Vec<u64>)
    ensures
        r@ == v@,
{
    let r = v.clone();
    assert(r@ =~= v@);
    r
}

impl<S: ComputeSpectrum> Pipeline<S> {
    /// Render one tick's video into `frame`, in place. Stateless renderers
    /// draw over the frame as handed in; the random source serves its
    /// per-tick cache.
    pub fn provide_video_frame(&mut self, node: NodeId, id: FrameId, frame: &mut VideoFrame)
        requires
            old(self).wf(),
            node < old(self).spec_nodes().len(),
            old(self).spec_nodes()[node as int].provides(Capability::ProvideVideoFrame),
            id.id_val() != 0,
            old(frame).wf(),
            old(frame).spec_width() == old(self).spec_config().spec_width(),
            old(frame).spec_height() == old(self).spec_config().spec_height(),
        ensures
            final(self).wf(),
            final(self).same_shape(*old(self)),
            forall|j: int|
                node < j < final(self).spec_nodes().len() ==> final(self).spec_nodes()[j] == old(
                    self,
                ).spec_nodes()[j],
            final(frame).wf(),
            final(frame).same_dims(*old(frame)),
            video_pull(*old(self), *final(self), node as int, id, *old(frame), *final(frame)),
        decreases node,
    {
        let kind: u8 = match &self.nodes[node] {
            Node::Circle(_) => 0,
            Node::Equalizer(_) => 1,
            Node::Merge(_) => 2,
            Node::RandomColor(_) => 3,
            _ => vstd::pervasive::unreached(),
        };
        if kind == 0 {
            let input = match &self.nodes[node] {
                Node::Circle(c) => c.input,
                _ => vstd::pervasive::unreached(),
            };
            let v = self.provide_number(input, id);
            let w = frame.width();
            let h = frame.height();
            let minwh: u64 = if w < h {
                w as u64
            } else {
                h as u64
            };
            assert(v * minwh <= NUM_MAX * 7680 && (v * minwh) / (SCALE as int) <= MAX_RADIUS)
                by (nonlinear_arith)
                requires
                    v <= NUM_MAX,
                    minwh <= 7680,
            ;
            let radius = v * minwh / SCALE;
            crate::processors::circle::render(frame, radius);
        } else if kind == 1 {
            let input = match &self.nodes[node] {
                Node::Equalizer(e) => e.input,
                _ => vstd::pervasive::unreached(),
            };
            let sp = self.provide_spectrum(input, id);
            crate::processors::equalizer::render(frame, &sp);
        } else if kind == 2 {
            let (inputs, contributions, mode) = match &self.nodes[node] {
                Node::Merge(m) => (copy_usize_vec(&m.inputs), copy_u64_vec(&m.contributions), m.mode),
                _ => vstd::pervasive::unreached(),
            };
            let w = frame.width();
            let h = frame.height();
            let first = inputs[0];
            let ghost s0 = *self;
            self.provide_video_frame(first, id, frame);
            let ghost s1 = *self;
            let ghost f0 = *frame;
            let c0 = contributions[0];
            crate::processors::merge::weight_frame(frame, c0);
            let ghost mut fs: Seq<VideoFrame> = seq![f0];
            let ghost mut ps: Seq<Pipeline<S>> = seq![s0, s1];
            proof {
                assert(video_pull(ps[0], ps[1], inputs@[0] as int, id, *old(frame), fs[0]));
                assert forall|x: int, y: int| 0 <= x < w && 0 <= y < h implies frame.pixel_at(x, y)
                    == merge_chain::<S>(fs, contributions@, mode, x, y) by {
                    assert(merge_chain::<S>(fs, contributions@, mode, x, y) == weighted_pixel(
                        f0.pixel_at(x, y),
                        contributions@[0] as int,
                    ));
                }
            }
            let mut k: usize = 1;
            while k < inputs.len()
                invariant
                    1 <= k <= inputs@.len(),
                    self.wf(),
                    self.same_shape(*old(self)),
                    forall|j: int|
                        node < j < self.spec_nodes().len() ==> self.spec_nodes()[j] == old(
                            self,
                        ).spec_nodes()[j],
                    node < self.spec_nodes().len(),
                    old(self).spec_nodes()[node as int] matches Node::Merge(m0) && m0.inputs@
                        == inputs@ && m0.contributions@ == contributions@ && m0.mode == mode,
                    old(self).spec_nodes()[node as int].node_wf(
                        node as int,
                        old(self).spec_nodes(),
                        old(self).spec_config(),
                    ),
                    id.id_val() != 0,
                    frame.wf(),
                    frame.same_dims(*old(frame)),
                    frame@.len() == old(frame)@.len(),
                    w == frame.spec_width() == self.spec_config().spec_width(),
                    h == frame.spec_height() == self.spec_config().spec_height(),
                    self.spec_config() == old(self).spec_config(),
                    fs.len() == k,
                    ps.len() == k + 1,
                    ps[0] == *old(self),
                    ps[k as int] == *self,
                    video_pull(ps[0], ps[1], inputs@[0] as int, id, *old(frame), fs[0]),
                    forall|k2: int|
                        1 <= k2 < k ==> zeroed_pull(
                            ps[k2],
                            ps[k2 + 1],
                            (#[trigger] inputs@[k2]) as int,
                            id,
                            *old(frame),
                            fs[k2],
                        ),
                    forall|x: int, y: int|
                        0 <= x < w && 0 <= y < h ==> frame.pixel_at(x, y) == merge_chain::<S>(
                            fs,
                            contributions@,
                            mode,
                            x,
                            y,
                        ),
                decreases inputs@.len() - k,
            {
                assert(4 * w <= usize::MAX && 4 * w * h <= usize::MAX) by (nonlinear_arith)
                    requires
                        w <= 7680,
                        h <= 4320,
                ;
                let mut scratch = VideoFrame::new(w, h);
                let ghost mid0 = scratch;
                let inp = inputs[k];
                let ghost sk = *self;
                self.provide_video_frame(inp, id, &mut scratch);
                let ghost sk1 = *self;
                let ghost fk = scratch;
                let ck = contributions[k];
                crate::processors::merge::combine_frames(frame, &scratch, ck, mode);
                proof {
                    assert(video_pull(sk, sk1, inp as int, id, mid0, fk));
                    assert(zeroed_pull(sk, sk1, inp as int, id, *old(frame), fk)) by {
                        assert(mid0.wf());
                        assert(mid0.same_dims(*old(frame)));
                    }
                    ps = ps.push(sk1);
                    let fs2 = fs.push(fk);
                    assert(fs2.drop_last() =~= fs);
                    assert(fs2.last() == fk);
                    assert forall|x: int, y: int| 0 <= x < w && 0 <= y < h implies frame.pixel_at(
                        x,
                        y,
                    ) == merge_chain::<S>(fs2, contributions@, mode, x, y) by {
                        assert(merge_chain::<S>(fs2, contributions@, mode, x, y) == combined_pixel(
                            mode,
                            merge_chain::<S>(fs, contributions@, mode, x, y),
                            fk.pixel_at(x, y),
                            contributions@[k as int] as int,
                        ));
                    }
                    fs = fs2;
                }
                k = k + 1;
            }
            proof {
                let n = inputs@.len() as int;
                assert(fs.len() == n);
                assert(ps.len() == n + 1);
                assert(ps[0] == *old(self));
                assert(ps[n] == *self);
            }
        } else {
            let last = match &self.nodes[node] {
                Node::RandomColor(r) => r.last,
                _ => vstd::pervasive::unreached(),
            };
            if last == id {
                match &self.nodes[node] {
                    Node::RandomColor(r) => {
                        frame.copy_from(&r.cache);
                    },
                    _ => {},
                }
            } else {
                match &mut self.nodes[node] {
                    Node::RandomColor(r) => {
                        r.last = id;
                        let t = r.counter.fetch_inc();
                        if t == 0 {
                            let n_cells = r.cells.len();
                            let mut colors: Vec<(u8, u8, u8)> = Vec::new();
                            let mut i: usize = 0;
                            while i < n_cells
                                invariant
                                    i <= n_cells,
                                    colors@.len() == i,
                                decreases n_cells - i,
                            {
                                let c = crate::sources::random_color::random_rgb();
                                colors.push(c);
                                i = i + 1;
                            }
                            crate::sources::random_color::render_cells(
                                &mut r.cache,
                                &r.cells,
                                &colors,
                            );
                            proof {
                                assert(colors@.len() == r.cells@.len());
                            }
                        }
                        frame.copy_from(&r.cache);
                    },
                    _ => {},
                }
            }
            proof {
                assert forall|i: int|
                    0 <= i < self.spec_nodes().len() implies (
                #[trigger] self.spec_nodes()[i]).node_wf(
                    i,
                    self.spec_nodes(),
                    self.spec_config(),
                ) by {
                    assert(old(self).spec_nodes()[i].node_wf(
                        i,
                        old(self).spec_nodes(),
                        old(self).spec_config(),
                    ));
                }
            }
        }
    }

    /// Serve one external tick of a sink: clear the frame and pull the
    /// sink's single video input into it, so the frame ends exactly as that
    /// input renders over a cleared frame.
    pub fn tick(&mut self, sink: NodeId, id: FrameId, frame: &mut VideoFrame)
        requires
            old(self).wf(),
            sink < old(self).spec_nodes().len(),
            old(self).spec_nodes()[sink as int] is Rtsp,
            id.id_val() != 0,
            old(frame).wf(),
            old(frame).spec_width() == old(self).spec_config().spec_width(),
            old(frame).spec_height() == old(self).spec_config().spec_height(),
        ensures
            final(self).wf(),
            final(self).same_shape(*old(self)),
            final(frame).wf(),
            final(frame).same_dims(*old(frame)),
            old(self).spec_nodes()[sink as int] matches Node::Rtsp(snk) ==> zeroed_pull(
                *old(self),
                *final(self),
                snk.input as int,
                id,
                *old(frame),
                *final(frame),
            ),
    {
        let input = match &self.nodes[sink] {
            Node::Rtsp(k) => k.input,
            _ => vstd::pervasive::unreached(),
        };
        frame.clear();
        let ghost mid0 = *frame;
        self.provide_video_frame(input, id, frame);
        proof {
            assert(video_pull(*old(self), *self, input as int, id, mid0, *frame));
            assert(mid0.wf());
            assert(mid0.same_dims(*old(frame)));
        }
    }
}

/// Tag for each node kind a factory can construct.
#[derive(Debug, Clone, Copy, PartialEq, Eq, Structural)]
pub enum NodeType {
    Device,
    RandomColor,
    Rtsp,
    Average,
    Circle,
    Equalizer,
    Loudness,
    Merge,
    Spectrum,
}

impl NodeType {
    /// Whether nodes of this kind are sinks.
    pub open spec fn spec_is_sink(self) -> bool {
        self is Rtsp
    }

    pub fn is_sink(&self) -> (r: bool)
        ensures
            r == self.spec_is_sink(),
    {
        matches!(self, NodeType::Rtsp)
    }
}

/// One registered node kind: its stable type-name string and its tag.
#[derive(Debug)]
pub struct FactoryEntry {
    pub kind_name: String,
    pub node_type: NodeType,
}

/// The first registered entry under a type name, if any.
pub open spec fn factory_lookup(entries: Seq<FactoryEntry>, name: Seq<char>) -> Option<NodeType>
    decreases entries.len(),
{
    if entries.len() == 0 {
        Option::None
    } else if entries[0].kind_name@ == name {
        Option::Some(entries[0].node_type)
    } else {
        factory_lookup(entries.drop_first(), name)
    }
}

/// A type-name to constructor mapping, populated once at startup.
/// Registering two entries under one name is a contract violation caught by
/// the registration precondition.
#[derive(Debug)]
pub struct NodeFactory {
    entries: Vec<FactoryEntry>,
}

impl NodeFactory {
    pub closed spec fn spec_entries(self) -> Seq<FactoryEntry> {
        self.entries@
    }

    pub open spec fn spec_get(self, name: Seq<char>) -> Option<NodeType> {
        factory_lookup(self.spec_entries(), name)
    }

    pub fn empty() -> (f: NodeFactory)
        ensures
            f.spec_entries().len() == 0,
    {
        NodeFactory { entries: Vec::new() }
    }

    /// Register a constructor under a fresh type name.
    pub fn register(&mut self, kind_name: String, node_type: NodeType)
        requires
            forall|i: int|
                0 <= i < old(self).spec_entries().len() ==> (#[trigger] old(
                    self,
                ).spec_entries()[i]).kind_name@ != kind_name@,
        ensures
            final(self).spec_entries().len() == old(self).spec_entries().len() + 1,
            forall|i: int|
                0 <= i < old(self).spec_entries().len() ==> final(self).spec_entries()[i] == old(
                    self,
                ).spec_entries()[i],
            final(self).spec_entries().last().kind_name@ == kind_name@,
            final(self).spec_entries().last().node_type == node_type,
    {
        self.entries.push(FactoryEntry { kind_name, node_type });
    }

    /// Look a type name up.
    pub fn get(&self, node_type: &str) -> (r: Option<NodeType>)
        ensures
            r == self.spec_get(node_type@),
    {
        let n = self.entries.len();
        let mut i: usize = 0;
        proof {
            assert(self.entries@.skip(0) =~= self.entries@);
        }
        while i < n
            invariant
                i <= n,
                n == self.entries@.len(),
                factory_lookup(self.entries@, node_type@) == factory_lookup(
                    self.entries@.skip(i as int),
                    node_type@,
                ),
            decreases n - i,
        {
            proof {
                assert(self.entries@.skip(i as int).drop_first() =~= self.entries@.skip(
                    i as int + 1,
                ));
            }
            if crate::text::str_eq(self.entries[i].kind_name.as_str(), node_type) {
                proof {
                    assert(self.entries@.skip(i as int)[0] == self.entries@[i as int]);
                }
                return Some(self.entries[i].node_type);
            }
            i = i + 1;
        }
        None
    }

    /// Construct one node of a registered kind at the next arena position.
    /// The new node is valid at position `nodes.len()` of the grown arena.
    pub fn construct<S: ComputeSpectrum>(
        &self,
        node_type: &str,
        nodes: &Vec<Node<S>>,
        inputs: Vec<NodeId>,
        options: &Options,
        config: VideoConfig,
        sample_rate: Option<usize>,
    ) -> (r: Result<Node<S>, Error>)
        requires
            forall|k: int| 0 <= k < inputs@.len() ==> (#[trigger] inputs@[k]) < nodes@.len(),
            config.valid(),
        ensures
            self.spec_get(node_type@) is None <==> (r matches Err(e) && e matches
                Error::UnknownNode(nm) && nm@ == node_type@),
            r matches Err(e) ==> (self.spec_get(node_type@) is Some ==> (e is InvalidInputs || e
                is InvalidOptions || e is System)),
            self.spec_get(node_type@) matches Some(t) ==> (r is Ok <==> construct_ok(
                t,
                nodes@,
                inputs@,
                *options,
                config,
                sample_rate,
            )),
            r matches Ok(n) ==> ({
                &&& self.spec_get(node_type@) matches Some(t)
                &&& node_matches_type(n, t)
                &&& n.node_wf(nodes@.len() as int, nodes@.push(n), config)
            }),
    {
        let t = match self.get(node_type) {
            Some(t) => t,
            None => {
                return Err(Error::UnknownNode(node_type.to_owned()));
            },
        };
        let ghost pre_nodes = nodes@;
        let r: Result<Node<S>, Error> = match t {
            NodeType::Device => match crate::sources::device::DeviceSource::new(
                nodes,
                inputs,
                sample_rate,
                config,
            ) {
                Ok(n) => Ok(Node::Device(n)),
                Err(e) => Err(e),
            },
            NodeType::RandomColor => match crate::sources::random_color::RandomColor::new(
                nodes,
                inputs,
                options,
                config,
            ) {
                Ok(n) => Ok(Node::RandomColor(n)),
                Err(e) => Err(e),
            },
            NodeType::Rtsp => match crate::sinks::rtsp::RtspSink::new(nodes, inputs) {
                Ok(n) => Ok(Node::Rtsp(n)),
                Err(e) => Err(e),
            },
            NodeType::Average => match crate::processors::average::Average::new(
                nodes,
                inputs,
                options,
            ) {
                Ok(n) => Ok(Node::Average(n)),
                Err(e) => Err(e),
            },
            NodeType::Circle => match crate::processors::circle::Circle::new(nodes, inputs) {
                Ok(n) => Ok(Node::Circle(n)),
                Err(e) => Err(e),
            },
            NodeType::Equalizer => match crate::processors::equalizer::Equalizer::new(
                nodes,
                inputs,
            ) {
                Ok(n) => Ok(Node::Equalizer(n)),
                Err(e) => Err(e),
            },
            NodeType::Loudness => match crate::processors::loudness::Loudness::new(nodes, inputs) {
                Ok(n) => Ok(Node::Loudness(n)),
                Err(e) => Err(e),
            },
            NodeType::Merge => match crate::processors::merge::Merge::new(nodes, inputs, options) {
                Ok(n) => Ok(Node::Merge(n)),
                Err(e) => Err(e),
            },
            NodeType::Spectrum => match crate::processors::spectrum::SpectrumNode::new(
                nodes,
                inputs,
                options,
            ) {
                Ok(n) => Ok(Node::Spectrum(n)),
                Err(e) => Err(e),
            },
        };
        r
    }
}

/// Whether a registered kind can be constructed from the given inputs and
/// options: the arity and capability demands of the kind, and its option
/// checks, all at once.
pub open spec fn construct_ok<S: ComputeSpectrum>(
    t: NodeType,
    nodes: Seq<Node<S>>,
    inputs: Seq<NodeId>,
    options: Options,
    config: VideoConfig,
    sample_rate: Option<usize>,
) -> bool {
    match t {
        NodeType::Device => inputs.len() == 0 && (sample_rate matches Some(sr) && 1 <= sr
            <= 1_000_000),
        NodeType::RandomColor => inputs.len() == 0 && crate::sources::random_color::splits_ok(
            options.spec_get("split-x"@),
        ) && crate::sources::random_color::splits_ok(options.spec_get("split-y"@))
            && crate::sources::random_color::update_every_ok(options.spec_get("update-every"@))
            && 1 <= crate::sources::random_color::modulo_of(
            options.spec_get("update-every"@),
            config.spec_fps() as int,
        ) <= 0xffff_ffff,
        NodeType::Rtsp => inputs.len() == 1 && nodes[inputs[0] as int].provides(
            Capability::ProvideVideoFrame,
        ),
        NodeType::Average => inputs.len() == 1 && nodes[inputs[0] as int].provides(
            Capability::ProvideNumber,
        ) && crate::processors::average::alpha_ok(options.spec_get("smoothing-factor"@)),
        NodeType::Circle => inputs.len() == 1 && nodes[inputs[0] as int].provides(
            Capability::ProvideNumber,
        ),
        NodeType::Equalizer => inputs.len() == 1 && nodes[inputs[0] as int].provides(
            Capability::ProvideSpectrum,
        ),
        NodeType::Loudness => inputs.len() == 1 && nodes[inputs[0] as int].provides(
            Capability::ProvideAudioData,
        ),
        NodeType::Merge => (inputs.len() >= 1 && (forall|k: int|
            0 <= k < inputs.len() ==> nodes[#[trigger] inputs[k] as int].provides(
                Capability::ProvideVideoFrame,
            ))) && crate::processors::merge::contributions_ok(
            options.spec_get("contributions"@),
            inputs.len() as int,
        ) && crate::processors::merge::mode_ok(options.spec_get("mode"@)),
        NodeType::Spectrum => inputs.len() == 1 && nodes[inputs[0] as int].provides(
            Capability::ProvideAudioData,
        ) && crate::processors::spectrum::window_ok(options.spec_get("window-size"@))
            && crate::processors::spectrum::range_ok(options.spec_get("frequency-range"@)),
    }
}

/// The capabilities every node of a registered kind satisfies.
pub open spec fn type_provides(t: NodeType, cap: Capability) -> bool {
    match t {
        NodeType::Device => cap is ProvideAudioData,
        NodeType::RandomColor => cap is ProvideVideoFrame,
        NodeType::Rtsp => false,
        NodeType::Average => cap is ProvideNumber,
        NodeType::Circle => cap is ProvideVideoFrame,
        NodeType::Equalizer => cap is ProvideVideoFrame,
        NodeType::Loudness => cap is ProvideNumber,
        NodeType::Merge => cap is ProvideVideoFrame,
        NodeType::Spectrum => cap is ProvideSpectrum,
    }
}

/// A node of a registered kind satisfies exactly its kind's capabilities.
pub proof fn lemma_node_type_provides<S: ComputeSpectrum>(n: Node<S>, t: NodeType)
    requires
        node_matches_type(n, t),
    ensures
        forall|cap: Capability| #[trigger] n.provides(cap) == type_provides(t, cap),
{
}

/// Whether a node value is of a registered kind.
pub open spec fn node_matches_type<S: ComputeSpectrum>(n: Node<S>, t: NodeType) -> bool {
    match t {
        NodeType::Device => n is Device,
        NodeType::RandomColor => n is RandomColor,
        NodeType::Rtsp => n is Rtsp,
        NodeType::Average => n is Average,
        NodeType::Circle => n is Circle,
        NodeType::Equalizer => n is Equalizer,
        NodeType::Loudness => n is Loudness,
        NodeType::Merge => n is Merge,
        NodeType::Spectrum => n is Spectrum,
    }
}

/// The most recent node registered under a name, if any.
pub open spec fn registry_lookup(entries: Seq<(String, NodeId)>, name: Seq<char>) -> Option<NodeId>
    decreases entries.len(),
{
    if entries.len() == 0 {
        Option::None
    } else if entries.last().0@ == name {
        Option::Some(entries.last().1)
    } else {
        registry_lookup(entries.drop_last(), name)
    }
}

/// A name to node-handle mapping built while the graph is instantiated; an
/// entry exists only once its node is fully constructed.
#[derive(Debug)]
pub struct NodeRegistry {
    entries: Vec<(String, NodeId)>,
}

impl NodeRegistry {
    pub closed spec fn spec_entries(self) -> Seq<(String, NodeId)> {
        self.entries@
    }

    pub open spec fn spec_get(self, name: Seq<char>) -> Option<NodeId> {
        registry_lookup(self.spec_entries(), name)
    }

    pub fn new() -> (r: NodeRegistry)
        ensures
            r.spec_entries().len() == 0,
    {
        NodeRegistry { entries: Vec::new() }
    }

    /// Register a constructed node under its name.
    pub fn register(&mut self, name: String, node: NodeId)
        ensures
            final(self).spec_entries() == old(self).spec_entries().push((name, node)),
    {
        self.entries.push((name, node));
    }

    /// Look a name up; the most recent registration under it wins.
    pub fn get(&self, name: &str) -> (r: Option<NodeId>)
        ensures
            r == self.spec_get(name@),
    {
        let n = self.entries.len();
        let mut i: usize = n;
        proof {
            assert(self.entries@.take(n as int) =~= self.entries@);
        }
        while i > 0
            invariant
                i <= n,
                n == self.entries@.len(),
                registry_lookup(self.entries@, name@) == registry_lookup(
                    self.entries@.take(i as int),
                    name@,
                ),
            decreases i,
        {
            i = i - 1;
            proof {
                assert(self.entries@.take(i as int + 1).drop_last() =~= self.entries@.take(
                    i as int,
                ));
                assert(self.entries@.take(i as int + 1).last() == self.entries@[i as int]);
            }
            if crate::text::str_eq(self.entries[i].0.as_str(), name) {
                return Some(self.entries[i].1);
            }
        }
        None
    }
}


impl Default for NodeFactory {
    /// A factory with every built-in node kind registered.
    fn default() -> (f: NodeFactory)
        ensures
            f.spec_entries().len() == 9,
            f.spec_entries()[0].kind_name@ == "device"@ && f.spec_entries()[0].node_type
                is Device,
            f.spec_entries()[1].kind_name@ == "random-color"@ && f.spec_entries()[1].node_type
                is RandomColor,
            f.spec_entries()[2].kind_name@ == "rtsp"@ && f.spec_entries()[2].node_type is Rtsp,
            f.spec_entries()[3].kind_name@ == "average"@ && f.spec_entries()[3].node_type
                is Average,
            f.spec_entries()[4].kind_name@ == "circle"@ && f.spec_entries()[4].node_type
                is Circle,
            f.spec_entries()[5].kind_name@ == "equalizer"@ && f.spec_entries()[5].node_type
                is Equalizer,
            f.spec_entries()[6].kind_name@ == "loudness"@ && f.spec_entries()[6].node_type
                is Loudness,
            f.spec_entries()[7].kind_name@ == "merge"@ && f.spec_entries()[7].node_type is Merge,
            f.spec_entries()[8].kind_name@ == "spectrum"@ && f.spec_entries()[8].node_type
                is Spectrum,
    {
        proof {
            reveal_strlit("device");
            reveal_strlit("random-color");
            reveal_strlit("rtsp");
            reveal_strlit("average");
            reveal_strlit("circle");
            reveal_strlit("equalizer");
            reveal_strlit("loudness");
            reveal_strlit("merge");
            reveal_strlit("spectrum");
            assert("device"@.len() == 6);
            assert("random-color"@.len() == 12);
            assert("rtsp"@.len() == 4);
            assert("average"@.len() == 7);
            assert("circle"@.len() == 6);
            assert("equalizer"@.len() == 9);
            assert("loudness"@.len() == 8);
            assert("merge"@.len() == 5);
            assert("spectrum"@.len() == 8);
            assert("device"@[0] == 'd');
            assert("circle"@[0] == 'c');
            assert("loudness"@[0] == 'l');
            assert("spectrum"@[0] == 's');
        }
        let mut f = NodeFactory::empty();
        crate::sources::device::register(&mut f);
        crate::sources::random_color::register(&mut f);
        crate::sinks::rtsp::register(&mut f);
        crate::processors::average::register(&mut f);
        crate::processors::circle::register(&mut f);
        crate::processors::equalizer::register(&mut f);
        crate::processors::loudness::register(&mut f);
        crate::processors::merge::register(&mut f);
        crate::processors::spectrum::register(&mut f);
        f
    }
}


/// The memoization protocol a scalar pull obeys: the node ends caching the
/// returned value for this tick, and a pull that already hits the cache
/// changes nothing at all.
pub open spec fn number_pull<S: ComputeSpectrum>(
    pre: Pipeline<S>,
    post: Pipeline<S>,
    node: int,
    id: FrameId,
    v: u64,
) -> bool {
    &&& post.wf()
    &&& post.same_shape(pre)
    &&& match (pre.spec_nodes()[node], post.spec_nodes()[node]) {
        (Node::Average(a0), Node::Average(a1)) => a1.last == id && a1.average == v && (a0.last
            == id ==> post == pre && v == a0.average),
        (Node::Loudness(l0), Node::Loudness(l1)) => l1.last == id && l1.value == v && (l0.last
            == id ==> post == pre && v == l0.value),
        _ => false,
    }
}

/// Frame-identity memoization for scalar nodes: two pulls carrying the same
/// tick identity observe identical results, and the second pull performs no
/// computation at all — it leaves the whole pipeline untouched.
pub proof fn lemma_number_pull_memoized<S: ComputeSpectrum>(
    p0: Pipeline<S>,
    p1: Pipeline<S>,
    p2: Pipeline<S>,
    node: int,
    id: FrameId,
    v1: u64,
    v2: u64,
)
    requires
        0 <= node < p0.spec_nodes().len(),
        number_pull(p0, p1, node, id, v1),
        number_pull(p1, p2, node, id, v2),
    ensures
        v2 == v1,
        p2 == p1,
{
}

/// The memoization protocol a spectrum pull obeys: the store ends keyed to
/// this tick, a pull that already hits the cache leaves the store (and so
/// the external transform) untouched, and the returned slice is a function
/// of the cached bins, the configured range, and the source's sample rate.
pub open spec fn spectrum_pull<S: ComputeSpectrum>(
    pre: Pipeline<S>,
    post: Pipeline<S>,
    node: int,
    id: FrameId,
    s: Spectrum,
) -> bool {
    &&& post.wf()
    &&& post.same_shape(pre)
    &&& match (pre.spec_nodes()[node], post.spec_nodes()[node]) {
        (Node::Spectrum(sp0), Node::Spectrum(sp1)) => {
            &&& sp1.store.spec_last_id() == id
            &&& (sp0.store.spec_last_id() == id ==> sp1.store == sp0.store)
            &&& match post.spec_nodes()[sp0.input as int] {
                Node::Device(d) => ({
                    let full_len = spectrum_len(sp1.store.spec_window_len() as int);
                    let bounds = slice_bounds(
                        sp1.store.spec_window_len() as int,
                        sp1.store.spec_range(),
                        full_len,
                        d.buf.spec_sample_rate() as int,
                    );
                    &&& s.spec_bin0() == bounds.0
                    &&& s.spec_bins() == sp1.store.spec_cached().subrange(bounds.0, bounds.1)
                }),
                _ => false,
            }
        },
        _ => false,
    }
}

/// Frame-identity memoization for the spectral stage: two pulls carrying
/// the same tick identity observe the same sliced spectrum, and the second
/// never reruns the transform — its store is exactly the first pull's.
pub proof fn lemma_spectrum_pull_memoized<S: ComputeSpectrum>(
    p0: Pipeline<S>,
    p1: Pipeline<S>,
    p2: Pipeline<S>,
    node: int,
    id: FrameId,
    s1: Spectrum,
    s2: Spectrum,
)
    requires
        0 <= node < p0.spec_nodes().len(),
        p0.wf(),
        spectrum_pull(p0, p1, node, id, s1),
        spectrum_pull(p1, p2, node, id, s2),
    ensures
        s2.spec_bins() == s1.spec_bins(),
        s2.spec_bin0() == s1.spec_bin0(),
        match (p1.spec_nodes()[node], p2.spec_nodes()[node]) {
            (Node::Spectrum(sp1), Node::Spectrum(sp2)) => sp2.store == sp1.store,
            _ => false,
        },
{
    match (p0.spec_nodes()[node], p1.spec_nodes()[node], p2.spec_nodes()[node]) {
        (Node::Spectrum(a0), Node::Spectrum(a1), Node::Spectrum(a2)) => {
            assert(a2.store == a1.store);
            assert(a1.input == a0.input) by {
                assert(p1.spec_nodes()[node].shape_eq(p0.spec_nodes()[node]));
            }
            match (p1.spec_nodes()[a0.input as int], p2.spec_nodes()[a0.input as int]) {
                (Node::Device(d1), Node::Device(d2)) => {
                    assert(d2.buf.same_config(d1.buf)) by {
                        assert(p2.spec_nodes()[a0.input as int].shape_eq(
                            p1.spec_nodes()[a0.input as int],
                        ));
                    }
                },
                _ => {
                    assert(false);
                },
            }
        },
        _ => {
            assert(false);
        },
    }
}

/// The memoization protocol the audio source obeys.
pub open spec fn audio_pull<S: ComputeSpectrum>(
    pre: Pipeline<S>,
    post: Pipeline<S>,
    node: int,
    id: FrameId,
    r: AudioBuffer,
) -> bool {
    &&& post.wf()
    &&& post.same_shape(pre)
    &&& match (pre.spec_nodes()[node], post.spec_nodes()[node]) {
        (Node::Device(d0), Node::Device(d1)) => d1.last == id && r@ == d1.cache@ && (d0.last
            == id ==> post == pre),
        _ => false,
    }
}

/// Frame-identity memoization for the audio source: every pull within one
/// tick observes the same snapshot, even if the capture callback has pushed
/// new samples into the ring buffer in between.
pub proof fn lemma_audio_pull_memoized<S: ComputeSpectrum>(
    p0: Pipeline<S>,
    p1: Pipeline<S>,
    p2: Pipeline<S>,
    node: int,
    id: FrameId,
    r1: AudioBuffer,
    r2: AudioBuffer,
)
    requires
        0 <= node < p0.spec_nodes().len(),
        audio_pull(p0, p1, node, id, r1),
        audio_pull(p1, p2, node, id, r2),
    ensures
        r2@ == r1@,
        p2 == p1,
{
}

impl<S: ComputeSpectrum> Pipeline<S> {
    /// The handle registered under a declared node name.
    pub fn find_node(&self, name: &str) -> (r: Option<NodeId>)
        ensures
            r matches Some(i) ==> i < self.spec_names().len() && self.spec_names()[i as int]@
                == name@,
            r is None ==> forall|j: int|
                0 <= j < self.spec_names().len() ==> (#[trigger] self.spec_names()[j])@ != name@,
    {
        let n = self.names.len();
        let mut i: usize = 0;
        while i < n
            invariant
                i <= n,
                n == self.names@.len(),
                forall|j: int| 0 <= j < i ==> (#[trigger] self.names@[j])@ != name@,
            decreases n - i,
        {
            if crate::text::str_eq(self.names[i].as_str(), name) {
                return Some(i);
            }
            i = i + 1;
        }
        None
    }
}

} // verus!
