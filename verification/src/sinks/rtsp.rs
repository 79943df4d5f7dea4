//! The video sink node.
//!
//! The transport itself (an RTSP server and encoder) is an external
//! collaborator: it lives outside the library and, on each of its ticks,
//! asks the pipeline for one frame through
//! [`crate::pipeline::Pipeline::tick`]. The node records which input feeds
//! the transport.

use vstd::prelude::*;
use vstd::string::StringExecFns;

use crate::pipeline::{Capability, Node, NodeId};
use crate::util::inputs::validate_inputs;
use crate::util::spectrum::ComputeSpectrum;
use crate::util::Error;

verus! {

/// The terminal consumer: on every external tick it pulls one frame from
/// its single video input and hands it onward for transport.
#[derive(Debug)]
pub struct RtspSink {
    pub input: usize,
}

impl RtspSink {
    /// Construct from one video-providing input.
    pub fn new<S: ComputeSpectrum>(nodes: &Vec<Node<S>>, inputs: Vec<NodeId>) -> (r: Result<
        RtspSink,
        Error,
    >)
        requires
            forall|k: int| 0 <= k < inputs@.len() ==> (#[trigger] inputs@[k]) < nodes@.len(),
        ensures
            r is Ok <==> (inputs@.len() == 1 && nodes@[inputs@[0] as int].provides(
                Capability::ProvideVideoFrame,
            )),
            r matches Ok(s) ==> s.input == inputs@[0],
            r matches Err(e) ==> e is InvalidInputs,
    {
        let input = match validate_inputs(nodes, &inputs, Capability::ProvideVideoFrame) {
            Ok(n) => n,
            Err(e) => {
                return Err(e);
            },
        };
        Ok(RtspSink { input })
    }
}

/// Register this node kind's constructor under its stable type name.
pub fn register(factory: &mut crate::pipeline::NodeFactory)
    requires
        forall|i: int|
            0 <= i < old(factory).spec_entries().len() ==> (#[trigger] old(
                factory,
            ).spec_entries()[i]).kind_name@ != "rtsp"@,
    ensures
        final(factory).spec_entries().len() == old(factory).spec_entries().len() + 1,
        forall|i: int|
            0 <= i < old(factory).spec_entries().len() ==> final(factory).spec_entries()[i] == old(
                factory,
            ).spec_entries()[i],
        final(factory).spec_entries().last().kind_name@ == "rtsp"@,
        final(factory).spec_entries().last().node_type == crate::pipeline::NodeType::Rtsp,
{
    factory.register(String::from_str("rtsp"), crate::pipeline::NodeType::Rtsp);
}

} // verus!
