//! Input validation shared by node constructors: every node checks the
//! count and capabilities of its inputs at construction time, never at pull
//! time.

use vstd::prelude::*;

use crate::pipeline::{Capability, Node, NodeId};
use crate::util::spectrum::ComputeSpectrum;
use crate::util::Error;

verus! {

/// Demand exactly one input with the given capability and hand it back.
pub fn validate_inputs<S: ComputeSpectrum>(
    nodes: &Vec<Node<S>>,
    inputs: &Vec<NodeId>,
    cap: Capability,
) -> (r: Result<NodeId, Error>)
    requires
        forall|k: int| 0 <= k < inputs@.len() ==> (#[trigger] inputs@[k]) < nodes@.len(),
    ensures
        r is Ok <==> (inputs@.len() == 1 && nodes@[inputs@[0] as int].provides(cap)),
        r matches Ok(n) ==> n == inputs@[0],
        r matches Err(e) ==> e is InvalidInputs,
{
    if inputs.len() != 1 {
        return Err(Error::InvalidInputs);
    }
    let n = inputs[0];
    if nodes[n].has_capability(cap) {
        Ok(n)
    } else {
        Err(Error::InvalidInputs)
    }
}

/// Demand that no inputs were declared.
pub fn validate_no_inputs(inputs: &Vec<NodeId>) -> (r: Result<(), Error>)
    ensures
        r is Ok <==> inputs@.len() == 0,
        r matches Err(e) ==> e is InvalidInputs,
{
    if inputs.len() == 0 {
        Ok(())
    } else {
        Err(Error::InvalidInputs)
    }
}

/// Demand at least one input, all with the given capability.
pub fn validate_all_inputs<S: ComputeSpectrum>(
    nodes: &Vec<Node<S>>,
    inputs: &Vec<NodeId>,
    cap: Capability,
) -> (r: Result<(), Error>)
    requires
        forall|k: int| 0 <= k < inputs@.len() ==> (#[trigger] inputs@[k]) < nodes@.len(),
    ensures
        r is Ok <==> (inputs@.len() >= 1 && forall|k: int|
            0 <= k < inputs@.len() ==> nodes@[#[trigger] inputs@[k] as int].provides(cap)),
        r matches Err(e) ==> e is InvalidInputs,
{
    let n = inputs.len();
    let mut i: usize = 0;
    while i < n
        invariant
            i <= n,
            n == inputs@.len(),
            forall|k: int| 0 <= k < inputs@.len() ==> (#[trigger] inputs@[k]) < nodes@.len(),
            forall|k: int|
                0 <= k < i ==> nodes@[#[trigger] inputs@[k] as int].provides(cap),
        decreases n - i,
    {
        let idx = inputs[i];
        if !nodes[idx].has_capability(cap) {
            return Err(Error::InvalidInputs);
        }
        i = i + 1;
    }
    if n == 0 {
        return Err(Error::InvalidInputs);
    }
    Ok(())
}

} // verus!
