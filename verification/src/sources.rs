//! Source nodes: the audio-device adapter and the random color generator.

pub mod device;
pub mod random_color;
