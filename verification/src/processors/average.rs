//! Exponential smoothing of a scalar input.

use vstd::prelude::*;
use vstd::string::StringExecFns;

use crate::fixed::{NUM_MAX, SCALE};
use crate::options::{Options, Value};
use crate::pipeline::{Capability, Node, NodeId};
use crate::util::inputs::validate_inputs;
use crate::util::spectrum::ComputeSpectrum;
use crate::util::{Error, FrameId};

verus! {

/// Smooths the numbers pulled from its input:
/// `avg' = alpha * x + (1 - alpha) * avg`, starting from zero.
#[derive(Debug)]
pub struct Average {
    pub input: usize,
    /// Smoothing factor in fixed point, at most `SCALE` (that is, 1.0).
    pub alpha: u64,
    pub last: FrameId,
    pub average: u64,
}

/// One smoothing step in fixed point, truncating toward zero.
pub open spec fn average_step(alpha: int, avg: int, x: int) -> int {
    (alpha * x + (SCALE - alpha) * avg) / (SCALE as int)
}

/// The smoothed value never leaves the range spanned by its operands.
pub proof fn lemma_average_step_bounded(alpha: int, avg: int, x: int, bound: int)
    requires
        0 <= alpha <= SCALE,
        0 <= avg <= bound,
        0 <= x <= bound,
    ensures
        0 <= average_step(alpha, avg, x) <= bound,
{
    assert(0 <= alpha * x + (SCALE - alpha) * avg <= SCALE * bound) by (nonlinear_arith)
        requires
            0 <= alpha <= SCALE,
            0 <= avg <= bound,
            0 <= x <= bound,
    ;
    assert(0 <= (alpha * x + (SCALE - alpha) * avg) / (SCALE as int) <= bound) by (nonlinear_arith)
        requires
            0 <= alpha * x + (SCALE - alpha) * avg <= SCALE * bound,
    ;
}

/// Compute one smoothing step.
pub fn step(alpha: u64, avg: u64, x: u64) -> (r: u64)
    requires
        alpha <= SCALE,
        avg <= NUM_MAX,
        x <= NUM_MAX,
    ensures
        r == average_step(alpha as int, avg as int, x as int),
        r <= NUM_MAX,
{
    proof {
        lemma_average_step_bounded(alpha as int, avg as int, x as int, NUM_MAX as int);
        assert(alpha * x <= SCALE * NUM_MAX && (SCALE - alpha) * avg <= SCALE * NUM_MAX)
            by (nonlinear_arith)
            requires
                alpha <= SCALE,
                avg <= NUM_MAX,
                x <= NUM_MAX,
        ;
    }
    (alpha * x + (SCALE - alpha) * avg) / SCALE
}

/// The default smoothing factor: 0.5 in fixed point.
pub const DEFAULT_ALPHA: u64 = 32768;

/// Whether the declared smoothing factor is usable: absent, or a
/// nonnegative number of at most 1.0.
pub open spec fn alpha_ok(o: Option<Value>) -> bool {
    match o {
        Option::None => true,
        Option::Some(v) => v matches Value::Number(n) && !n.neg && n.mag <= SCALE,
    }
}

/// The smoothing factor a usable option block selects.
pub open spec fn alpha_of(o: Option<Value>) -> int {
    match o {
        Option::None => DEFAULT_ALPHA as int,
        Option::Some(v) => match v {
            Value::Number(n) => n.mag as int,
            _ => 0,
        },
    }
}

impl Average {
    /// Construct from one number-providing input; the `smoothing-factor`
    /// option (default 0.5) must be a number in `[0, 1]`.
    pub fn new<S: ComputeSpectrum>(
        nodes: &Vec<Node<S>>,
        inputs: Vec<NodeId>,
        options: &Options,
    ) -> (r: Result<Average, Error>)
        requires
            forall|k: int| 0 <= k < inputs@.len() ==> (#[trigger] inputs@[k]) < nodes@.len(),
        ensures
            ({
                let opt = options.spec_get("smoothing-factor"@);
                &&& (r is Ok <==> inputs@.len() == 1 && nodes@[inputs@[0] as int].provides(
                    Capability::ProvideNumber,
                ) && alpha_ok(opt))
                &&& (r matches Ok(a) ==> a.input == inputs@[0] && a.alpha == alpha_of(opt)
                    && a.last.id_val() == 0 && a.average == 0)
                &&& (!(inputs@.len() == 1 && nodes@[inputs@[0] as int].provides(
                    Capability::ProvideNumber,
                )) ==> (r matches Err(e) && e is InvalidInputs))
                &&& (inputs@.len() == 1 && nodes@[inputs@[0] as int].provides(
                    Capability::ProvideNumber,
                ) && !alpha_ok(opt) ==> (r matches Err(e) && e is InvalidOptions))
            }),
    {
        let input = match validate_inputs(nodes, &inputs, Capability::ProvideNumber) {
            Ok(n) => n,
            Err(e) => {
                return Err(e);
            },
        };
        let alpha = match options.get("smoothing-factor") {
            None => DEFAULT_ALPHA,
            Some(v) => match v.as_number() {
                Some(n) =>
                    if !n.neg && n.mag <= SCALE {
                        n.mag
                    } else {
                        return Err(Error::InvalidOptions);
                    },
                None => {
                    return Err(Error::InvalidOptions);
                },
            },
        };
        Ok(Average { input, alpha, last: FrameId::default(), average: 0 })
    }
}

/// Register this node kind's constructor under its stable type name.
pub fn register(factory: &mut crate::pipeline::NodeFactory)
    requires
        forall|i: int|
            0 <= i < old(factory).spec_entries().len() ==> (#[trigger] old(
                factory,
            ).spec_entries()[i]).kind_name@ != "average"@,
    ensures
        final(factory).spec_entries().len() == old(factory).spec_entries().len() + 1,
        forall|i: int|
            0 <= i < old(factory).spec_entries().len() ==> final(factory).spec_entries()[i] == old(
                factory,
            ).spec_entries()[i],
        final(factory).spec_entries().last().kind_name@ == "average"@,
        final(factory).spec_entries().last().node_type == crate::pipeline::NodeType::Average,
{
    factory.register(String::from_str("average"), crate::pipeline::NodeType::Average);
}

/// With a smoothing factor of exactly 1.0 the raw input is reproduced
/// unsmoothed.
pub proof fn lemma_average_identity(avg: int, x: int)
    requires
        0 <= avg,
        0 <= x,
    ensures
        average_step(SCALE as int, avg, x) == x,
{
    assert((SCALE * x + 0 * avg) / (SCALE as int) == x) by (nonlinear_arith);
}

/// With a smoothing factor of exactly 0 the average never moves, whatever
/// the input: started at zero it stays at zero forever.
pub proof fn lemma_average_frozen(avg: int, x: int)
    requires
        0 <= avg,
        0 <= x,
    ensures
        average_step(0, avg, x) == avg,
{
    assert((0 * x + (SCALE - 0) * avg) / (SCALE as int) == avg) by (nonlinear_arith);
}

} // verus!
