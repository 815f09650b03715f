//! A verified core for a small software sound engine.
//!
//! The crate models audio amplitudes as fixed-point integers (see [`dsp`]),
//! decodes tracker module files ([`promod`]), sequences them ([`player`]),
//! and mixes live synthesizer voices ([`sound`], [`synth`]).

pub mod dsp;
pub mod notes;
pub mod playback;
pub mod player;
pub mod promod;
pub mod sound;
pub mod synth;
