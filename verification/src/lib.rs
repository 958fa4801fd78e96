//! Verified core of the Pond droplet installation: voice lifecycle and
//! allocation, interleaved sample positioning, DSP wiring plans, the musical
//! scale and the framing of droplet trigger names.

pub mod dsp;
pub mod graph;
pub mod outside;
pub mod pool;
pub mod signal;
pub mod trigger;
pub mod voice;
