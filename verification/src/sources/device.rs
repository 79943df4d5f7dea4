//! The audio-capture source node.
//!
//! The platform capture driver itself is an external collaborator: it runs
//! outside the library and pushes sample chunks in through
//! [`crate::pipeline::Pipeline::push_audio`]. The node holds the ring buffer
//! those chunks land in and serves per-tick snapshots of it.

use vstd::prelude::*;
use vstd::string::StringExecFns;

use crate::pipeline::{Node, NodeId};
use crate::util::audio::AudioBuffer;
use crate::util::inputs::validate_no_inputs;
use crate::util::spectrum::ComputeSpectrum;
use crate::util::video::VideoConfig;
use crate::util::{Error, FrameId};

verus! {

/// Adapts captured audio into an audio-data provider backed by the ring
/// buffer; each tick is answered with a snapshot taken at the tick's first
/// pull.
#[derive(Debug)]
pub struct DeviceSource {
    /// The live store the capture callback pushes into.
    pub buf: AudioBuffer,
    pub last: FrameId,
    /// The snapshot serving the current tick.
    pub cache: AudioBuffer,
}

impl DeviceSource {
    /// Construct a source with no inputs. The capture collaborator's probed
    /// sample rate arrives as a plain value; a missing device or an
    /// unusable rate is a `System` error.
    pub fn new<S: ComputeSpectrum>(
        nodes: &Vec<Node<S>>,
        inputs: Vec<NodeId>,
        sample_rate: Option<usize>,
        config: VideoConfig,
    ) -> (r: Result<DeviceSource, Error>)
        requires
            config.valid(),
        ensures
            r is Ok <==> (inputs@.len() == 0 && (sample_rate matches Some(sr) && 1 <= sr
                <= 1_000_000)),
            r matches Ok(d) ==> ({
                &&& (sample_rate matches Some(sr) && d.buf.spec_sample_rate() == sr
                    && d.buf.spec_frame_size() == (sr as int) / (config.spec_fps() as int))
                &&& d.buf.wf()
                &&& d.cache.wf()
                &&& d.buf.same_config(d.cache)
                &&& d.buf@.len() == 0
                &&& d.cache@.len() == 0
                &&& d.last.id_val() == 0
            }),
            inputs@.len() != 0 ==> (r matches Err(e) && e is InvalidInputs),
            inputs@.len() == 0 && !(sample_rate matches Some(sr) && 1 <= sr <= 1_000_000) ==> (
            r matches Err(e) && e is System),
    {
        let _ = nodes;
        match validate_no_inputs(&inputs) {
            Ok(_) => (),
            Err(e) => {
                return Err(e);
            },
        }
        let sr = match sample_rate {
            Some(sr) =>
                if 1 <= sr && sr <= 1_000_000 {
                    sr
                } else {
                    return Err(Error::System);
                },
            None => {
                return Err(Error::System);
            },
        };
        let buf = AudioBuffer::new(sr, config.fps());
        let cache = AudioBuffer::new(sr, config.fps());
        Ok(DeviceSource { buf, last: FrameId::default(), cache })
    }
}

/// Register this node kind's constructor under its stable type name.
pub fn register(factory: &mut crate::pipeline::NodeFactory)
    requires
        forall|i: int|
            0 <= i < old(factory).spec_entries().len() ==> (#[trigger] old(
                factory,
            ).spec_entries()[i]).kind_name@ != "device"@,
    ensures
        final(factory).spec_entries().len() == old(factory).spec_entries().len() + 1,
        forall|i: int|
            0 <= i < old(factory).spec_entries().len() ==> final(factory).spec_entries()[i] == old(
                factory,
            ).spec_entries()[i],
        final(factory).spec_entries().last().kind_name@ == "device"@,
        final(factory).spec_entries().last().node_type == crate::pipeline::NodeType::Device,
{
    factory.register(String::from_str("device"), crate::pipeline::NodeType::Device);
}

} // verus!
