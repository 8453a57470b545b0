//! Per-sample processing units for a modular-synthesizer engine, built on a
//! polyphonic voltage port model.

pub mod voltage;
pub mod util;
pub mod rack;
pub mod breaker;
pub mod mag_sign;
pub mod permutation;
pub mod polyshuffle;
