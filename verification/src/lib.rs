//! Core logic of a native audio playback engine: a message-driven player
//! state machine with wall-clock position tracking, a configurable
//! multi-band equalizer plan, and the pure rules behind the surrounding
//! plugin, presence and metadata services.

use vstd::prelude::*;

pub mod engine;
pub mod eq;
pub mod laws;
pub mod plugin;
pub mod presence;
pub mod text;
pub mod track;
pub mod window;

verus! {

/// Volume and seek fractions are carried in thousandths, so `1000`
/// stands for the full scale `1.0`.
pub const FRACTION_SCALE: u64 = 1000;

/// Clamp a signed per-mille value into the legal volume range.
pub open spec fn clamped_fraction(v: i64) -> u64 {
    if v < 0 {
        0u64
    } else if v > FRACTION_SCALE as i64 {
        FRACTION_SCALE as u64
    } else {
        v as u64
    }
}

/// Saturating clamp of a raw per-mille fraction, shared by volume and seek
/// handling.
pub fn clamp_fraction(v: i64) -> (r: u64)
    ensures
        r == clamped_fraction(v),
        r <= FRACTION_SCALE,
{
    if v < 0 {
        0
    } else if v > FRACTION_SCALE as i64 {
        FRACTION_SCALE
    } else {
        v as u64
    }
}

} // verus!
