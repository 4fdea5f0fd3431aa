//! The provider agent's logic: machine telemetry, deterministic generation, and the
//! client side of an OpenAI-compatible inference endpoint.
//!
//! Everything here computes on plain values. Reading files, running commands and
//! talking to the endpoint are left to the program around it.

pub mod determinism;
pub mod engines;
pub mod json;
pub mod system_profile;
pub mod text;
