//! Shared plumbing: error kinds, frame identities, and small helpers.

use vstd::prelude::*;

pub mod audio;
pub mod inputs;
pub mod misc;
pub mod spectrum;
pub mod video;

verus! {

/// Everything that can go wrong while a pipeline is configured or run.
#[derive(Debug, Clone)]
pub enum Error {
    /// A platform collaborator (audio device, transport) failed.
    System,
    /// A node was constructed with the wrong number or kind of inputs.
    InvalidInputs,
    /// A node option is malformed, missing, or out of range.
    InvalidOptions,
    /// A definition names a node type that is not registered; carries the name.
    UnknownNode(String),
    /// The definition set is structurally unusable as a graph.
    InvalidPipeline(InvalidPipeline),
}

/// Graph-level structural errors, each distinct from the others.
#[derive(Debug, Clone)]
pub enum InvalidPipeline {
    /// No definition has a sink type, so nothing could ever drive the graph.
    SourceProcessorsSinkOrder,
    /// The input relation contains a cycle.
    Cycle,
    /// A declared input name is not among the declared node names.
    UnknownInput,
    /// The definition set itself is malformed (for example a duplicated name).
    InvalidSyntax,
}

/// Identity of one logical tick. Every pull issued for the same tick carries
/// an equal `FrameId`; the all-zero default is reserved for "nothing computed
/// yet" and is never minted by [`FrameIds`].
#[derive(Debug, Clone, Copy, PartialEq, Eq, Hash, Structural)]
pub struct FrameId(usize);

impl Default for FrameId {
    /// The reserved "no frame yet" identity.
    fn default() -> (id: FrameId)
        ensures
            id.id_val() == 0,
    {
        FrameId(0)
    }
}

impl FrameId {
    /// The tick number this identity carries.
    pub closed spec fn id_val(self) -> nat {
        self.0 as nat
    }

    /// Overwrite `self` with `other`; report whether the value changed.
    pub fn update(&mut self, other: Self) -> (changed: bool)
        ensures
            *final(self) == other,
            changed <==> *old(self) != other,
    {
        if self.0 != other.0 {
            self.0 = other.0;
            true
        } else {
            false
        }
    }
}

/// Mints monotonically increasing, never-zero frame identities, one per tick.
#[derive(Debug)]
pub struct FrameIds {
    next: usize,
}

impl FrameIds {
    /// The tick number the next minted identity will carry.
    pub closed spec fn next_val(self) -> nat {
        self.next as nat
    }

    pub fn new() -> (g: FrameIds)
        ensures
            g.next_val() == 1,
    {
        FrameIds { next: 1 }
    }

    /// Mint the identity of the next tick.
    pub fn mint(&mut self) -> (id: FrameId)
        requires
            old(self).next_val() >= 1,
            old(self).next_val() < usize::MAX,
        ensures
            id.id_val() == old(self).next_val(),
            id.id_val() != 0,
            final(self).next_val() == old(self).next_val() + 1,
    {
        let id = FrameId(self.next);
        self.next = self.next + 1;
        id
    }
}

} // verus!
