//! A real-time additive synthesis engine, modelled in Q16.16 fixed point.
//!
//! The engine renders a bank of wavetable voices — each a fundamental with
//! stacked harmonic partials, phase-modulated by smoothed noise and by an
//! intra-frame feedback term — into a soft-clipped mono signal replicated
//! across output channels. Live parameter updates reach the audio path
//! through non-blocking, last-write-wins control channels.

pub mod bridge;
pub mod clip;
pub mod engine;
pub mod fixed;
pub mod lifecycle;
pub mod noise;
pub mod osc;
pub mod table;
pub mod voice;
