//! The graph node that exposes the spectral analysis engine.

use vstd::prelude::*;
use vstd::string::StringExecFns;

use crate::options::{Options, Value};
use crate::pipeline::{Capability, Node, NodeId};
use crate::util::inputs::validate_inputs;
use crate::util::spectrum::{ComputeSpectrum, SpectrumStore, Window, MAX_WINDOW};
use crate::util::Error;

verus! {

/// Wraps a [`SpectrumStore`] as a graph node with the spectrum capability.
#[derive(Debug)]
pub struct SpectrumNode<S> {
    pub input: usize,
    pub store: SpectrumStore<S>,
}

/// Default transform window, in samples.
pub const DEFAULT_WINDOW: usize = 4096;

/// Default lower bound of the sliced range: the pitch C0, in fixed-point
/// hertz.
pub const DEFAULT_F_MIN: u64 = 1071514;

/// Default upper bound of the sliced range: the pitch B8, in fixed-point
/// hertz.
pub const DEFAULT_F_MAX: u64 = 517873992;

/// Whether the declared window size is usable: absent, or a whole number
/// between 2 and [`MAX_WINDOW`].
pub open spec fn window_ok(o: Option<Value>) -> bool {
    match o {
        Option::None => true,
        Option::Some(v) => match v.spec_as_i32() {
            Option::Some(w) => 2 <= w <= MAX_WINDOW,
            Option::None => false,
        },
    }
}

/// The window size a usable option block selects.
pub open spec fn window_of(o: Option<Value>) -> int {
    match o {
        Option::None => DEFAULT_WINDOW as int,
        Option::Some(v) => match v.spec_as_i32() {
            Option::Some(w) => w as int,
            Option::None => 0,
        },
    }
}

/// Whether the declared frequency range is usable: absent, or two numbers
/// `0 < f_min < f_max <= 65536.0`.
pub open spec fn range_ok(o: Option<Value>) -> bool {
    match o {
        Option::None => true,
        Option::Some(v) => match v {
            Value::Sequence(vs) => vs@.len() == 2 && (vs@[0] matches Value::Number(a)
                && (vs@[1] matches Value::Number(b) && !a.neg && !b.neg && 1 <= a.mag && a.mag
                < b.mag && b.mag <= 0x1_0000_0000u64)),
            _ => false,
        },
    }
}

/// The frequency range a usable option block selects.
pub open spec fn range_of(o: Option<Value>) -> (u64, u64) {
    match o {
        Option::None => (DEFAULT_F_MIN, DEFAULT_F_MAX),
        Option::Some(v) => match v {
            Value::Sequence(vs) => match (vs[0], vs[1]) {
                (Value::Number(a), Value::Number(b)) => (a.mag, b.mag),
                _ => (0, 0),
            },
            _ => (0, 0),
        },
    }
}

impl<S: ComputeSpectrum> SpectrumNode<S> {
    /// Construct from one audio-providing input; `window-size` (default
    /// 4096) and `frequency-range` (default the C0..B8 pitch range) come
    /// from the options.
    pub fn new(nodes: &Vec<Node<S>>, inputs: Vec<NodeId>, options: &Options) -> (r: Result<
        SpectrumNode<S>,
        Error,
    >)
        requires
            forall|k: int| 0 <= k < inputs@.len() ==> (#[trigger] inputs@[k]) < nodes@.len(),
        ensures
            ({
                let inputs_ok = inputs@.len() == 1 && nodes@[inputs@[0] as int].provides(
                    Capability::ProvideAudioData,
                );
                let w_opt = options.spec_get("window-size"@);
                let r_opt = options.spec_get("frequency-range"@);
                &&& (r is Ok <==> inputs_ok && window_ok(w_opt) && range_ok(r_opt))
                &&& (r matches Ok(sp) ==> sp.input == inputs@[0]
                    && sp.store.spec_window_len() as int == window_of(w_opt)
                    && sp.store.spec_range() == Option::Some(range_of(r_opt))
                    && sp.store.spec_last_id().id_val() == 0 && sp.store.wf())
                &&& (!inputs_ok ==> (r matches Err(e) && e is InvalidInputs))
                &&& (inputs_ok && !(window_ok(w_opt) && range_ok(r_opt)) ==> (r matches Err(e)
                    && e is InvalidOptions))
            }),
    {
        let input = match validate_inputs(nodes, &inputs, Capability::ProvideAudioData) {
            Ok(n) => n,
            Err(e) => {
                return Err(e);
            },
        };
        let window_len: usize = match options.get("window-size") {
            None => DEFAULT_WINDOW,
            Some(v) => match v.as_i32() {
                Some(w) =>
                    if 2 <= w && w <= MAX_WINDOW as i32 {
                        w as usize
                    } else {
                        return Err(Error::InvalidOptions);
                    },
                None => {
                    return Err(Error::InvalidOptions);
                },
            },
        };
        let range: (u64, u64) = match options.get("frequency-range") {
            None => (DEFAULT_F_MIN, DEFAULT_F_MAX),
            Some(v) => match v {
                Value::Sequence(vs) => {
                    if vs.len() != 2 {
                        return Err(Error::InvalidOptions);
                    }
                    let a = match vs[0].as_number() {
                        Some(a) => a,
                        None => {
                            return Err(Error::InvalidOptions);
                        },
                    };
                    let b = match vs[1].as_number() {
                        Some(b) => b,
                        None => {
                            return Err(Error::InvalidOptions);
                        },
                    };
                    if a.neg || b.neg || a.mag < 1 || a.mag >= b.mag || b.mag > 0x1_0000_0000u64 {
                        return Err(Error::InvalidOptions);
                    }
                    (a.mag, b.mag)
                },
                _ => {
                    return Err(Error::InvalidOptions);
                },
            },
        };
        let transform = S::create(window_len);
        let store = SpectrumStore::with_frequency_range(transform, Window::Hann, window_len, range);
        Ok(SpectrumNode { input, store })
    }
}

/// Register this node kind's constructor under its stable type name.
pub fn register(factory: &mut crate::pipeline::NodeFactory)
    requires
        forall|i: int|
            0 <= i < old(factory).spec_entries().len() ==> (#[trigger] old(
                factory,
            ).spec_entries()[i]).kind_name@ != "spectrum"@,
    ensures
        final(factory).spec_entries().len() == old(factory).spec_entries().len() + 1,
        forall|i: int|
            0 <= i < old(factory).spec_entries().len() ==> final(factory).spec_entries()[i] == old(
                factory,
            ).spec_entries()[i],
        final(factory).spec_entries().last().kind_name@ == "spectrum"@,
        final(factory).spec_entries().last().node_type == crate::pipeline::NodeType::Spectrum,
{
    factory.register(String::from_str("spectrum"), crate::pipeline::NodeType::Spectrum);
}

} // verus!
