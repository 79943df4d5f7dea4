//! Sink nodes: terminal consumers that drive pulls into the graph.

pub mod rtsp;
