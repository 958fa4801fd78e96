//! The stereo droplet voice played by `PondSynth`, and its mixing plan.

pub mod droplet;
pub mod graph;
