//! A pull-based dataflow engine that turns a live audio stream into a
//! synthesized video stream: captured samples are analyzed (loudness,
//! spectral content) and the results drive procedurally generated frames,
//! emitted once per external tick.
//!
//! The graph is described declaratively ([`load`]), validated and
//! topologically ordered into an arena of capability-typed nodes
//! ([`pipeline`]), and driven by pulls that compute each node's value at
//! most once per tick. Audio samples and scalar signal values are carried
//! as fixed-point numbers with [`fixed::SCALE`] fractional units per 1.0,
//! so that every piece of signal arithmetic has an exact integer
//! specification. The platform collaborators — the capture device, the
//! video transport, and the floating-point frequency transform — stay
//! outside: the first two feed and drain the engine through plain calls,
//! the third is abstracted by [`util::spectrum::ComputeSpectrum`].

pub mod fixed;
pub mod load;
pub mod options;
pub mod pipeline;
pub mod processors;
pub mod sinks;
pub mod sources;
pub mod text;
pub mod util;
