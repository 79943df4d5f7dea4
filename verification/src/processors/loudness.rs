//! Root-mean-square loudness of the most recent audio frame.

use vstd::prelude::*;
use vstd::string::StringExecFns;

use crate::fixed::{is_isqrt, isqrt};
use crate::pipeline::{Capability, Node, NodeId};
use crate::util::inputs::validate_inputs;
use crate::util::spectrum::ComputeSpectrum;
use crate::util::{Error, FrameId};

verus! {

/// Reports the root-mean-square of its audio input's most recent single
/// frame-period of samples.
#[derive(Debug)]
pub struct Loudness {
    pub input: usize,
    pub last: FrameId,
    pub value: u64,
}

/// Sum of the squares of a sample sequence.
pub open spec fn sum_squares(s: Seq<i32>) -> int
    decreases s.len(),
{
    if s.len() == 0 {
        0
    } else {
        sum_squares(s.drop_last()) + s.last() * s.last()
    }
}

/// Mean square, zero for an empty sequence.
pub open spec fn mean_square(s: Seq<i32>) -> int {
    if s.len() == 0 {
        0
    } else {
        sum_squares(s) / s.len() as int
    }
}

/// `r` is the root-mean-square of `s`: the integer square root of the mean
/// square, and zero when there are no samples.
pub open spec fn is_rms(s: Seq<i32>, r: int) -> bool {
    if s.len() == 0 {
        r == 0
    } else {
        is_isqrt(mean_square(s), r)
    }
}

proof fn lemma_sum_squares_bounded(s: Seq<i32>)
    ensures
        0 <= sum_squares(s) <= s.len() * 0x4000_0000_0000_0000,
    decreases s.len(),
{
    if s.len() == 0 {
    } else {
        lemma_sum_squares_bounded(s.drop_last());
        let x = s.last() as int;
        assert(0 <= x * x <= 0x4000_0000_0000_0000) by (nonlinear_arith)
            requires
                -0x8000_0000 <= x <= 0x7fff_ffff,
        ;
        assert(s.drop_last().len() * 0x4000_0000_0000_0000 + 0x4000_0000_0000_0000 == s.len()
            * 0x4000_0000_0000_0000) by (nonlinear_arith)
            requires
                s.len() == s.drop_last().len() + 1,
        ;
    }
}

/// Root-mean-square of a block of samples.
pub fn rms(samples: &Vec<i32>) -> (r: u64)
    ensures
        is_rms(samples@, r as int),
        r <= 0x8000_0000u64,
{
    let n = samples.len();
    if n == 0 {
        return 0;
    }
    let mut sum: u128 = 0;
    let mut i: usize = 0;
    while i < n
        invariant
            i <= n,
            n == samples@.len(),
            sum == sum_squares(samples@.subrange(0, i as int)),
            sum <= i * 0x4000_0000_0000_0000,
        decreases n - i,
    {
        let x = samples[i];
        let mag: u64 = if x >= 0 {
            x as u64
        } else {
            (-(x as i64)) as u64
        };
        assert(mag * mag <= 0x4000_0000_0000_0000 && mag * mag == (x as int) * (x as int))
            by (nonlinear_arith)
            requires
                mag <= 0x8000_0000u64,
                mag == if x >= 0 {
                    x as int
                } else {
                    -(x as int)
                },
        ;
        let sq: u128 = (mag * mag) as u128;
        proof {
            let ghost pre = samples@.subrange(0, i as int);
            let ghost post = samples@.subrange(0, i as int + 1);
            assert(post.drop_last() =~= pre);
            assert(post.last() == samples@[i as int]);
            assert(sq == (x as int) * (x as int));
            assert((i + 1) * 0x4000_0000_0000_0000 == i * 0x4000_0000_0000_0000
                + 0x4000_0000_0000_0000) by (nonlinear_arith);
            assert(i * 0x4000_0000_0000_0000 + 0x4000_0000_0000_0000 <= u128::MAX)
                by (nonlinear_arith)
                requires
                    i < 0x1_0000_0000_0000_0000,
            ;
        }
        sum = sum + sq;
        i = i + 1;
    }
    proof {
        assert(samples@.subrange(0, n as int) =~= samples@);
        lemma_sum_squares_bounded(samples@);
        assert(sum / (n as u128) <= 0x4000_0000_0000_0000) by (nonlinear_arith)
            requires
                n >= 1,
                sum <= n * 0x4000_0000_0000_0000,
        ;
    }
    let mean: u128 = sum / (n as u128);
    let mean64: u64 = mean as u64;
    let r = isqrt(mean64);
    proof {
        assert(r * r <= mean64 < (r + 1) * (r + 1));
        assert(r <= 0x8000_0000u64) by (nonlinear_arith)
            requires
                r * r <= 0x4000_0000_0000_0000,
        ;
    }
    r
}

impl Loudness {
    /// Construct from one audio-providing input.
    pub fn new<S: ComputeSpectrum>(nodes: &Vec<Node<S>>, inputs: Vec<NodeId>) -> (r: Result<
        Loudness,
        Error,
    >)
        requires
            forall|k: int| 0 <= k < inputs@.len() ==> (#[trigger] inputs@[k]) < nodes@.len(),
        ensures
            r is Ok <==> (inputs@.len() == 1 && nodes@[inputs@[0] as int].provides(
                Capability::ProvideAudioData,
            )),
            r matches Ok(l) ==> l.input == inputs@[0] && l.last.id_val() == 0 && l.value == 0,
            r matches Err(e) ==> e is InvalidInputs,
    {
        let input = match validate_inputs(nodes, &inputs, Capability::ProvideAudioData) {
            Ok(n) => n,
            Err(e) => {
                return Err(e);
            },
        };
        Ok(Loudness { input, last: FrameId::default(), value: 0 })
    }
}

/// Register this node kind's constructor under its stable type name.
pub fn register(factory: &mut crate::pipeline::NodeFactory)
    requires
        forall|i: int|
            0 <= i < old(factory).spec_entries().len() ==> (#[trigger] old(
                factory,
            ).spec_entries()[i]).kind_name@ != "loudness"@,
    ensures
        final(factory).spec_entries().len() == old(factory).spec_entries().len() + 1,
        forall|i: int|
            0 <= i < old(factory).spec_entries().len() ==> final(factory).spec_entries()[i] == old(
                factory,
            ).spec_entries()[i],
        final(factory).spec_entries().last().kind_name@ == "loudness"@,
        final(factory).spec_entries().last().node_type == crate::pipeline::NodeType::Loudness,
{
    factory.register(String::from_str("loudness"), crate::pipeline::NodeType::Loudness);
}

} // verus!
