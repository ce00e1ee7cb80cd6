//! The signal-processing core of a feedback-delay-network reverb.
//!
//! Everything here is generic over the scalar type of a sample (see
//! [`sample::Sample`]). The library fixes which operations are applied to
//! which values and in which order, how buffers are indexed and how state
//! moves from one audio frame to the next; the arithmetic itself belongs to
//! the scalar type. Contracts therefore relate results to inputs through the
//! outcomes of the scalar operations.
pub mod allpass;
pub mod biquad;
pub mod delay;
pub mod diffusion;
pub mod early;
pub mod hadamard;
pub mod householder;
pub mod lane;
pub mod pitch;
pub mod reverb;
pub mod sample;
pub mod simdmath;
