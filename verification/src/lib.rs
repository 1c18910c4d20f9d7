//! A safety layer over a lazily evaluated expression engine.
//!
//! The library models the engine's handle protocol: a context that carries
//! the error channel, a store opened against it, an evaluator state bound to
//! both, and typestated value slots that move from allocated to assigned to
//! forced.  Every handle is released exactly once, and the context can only
//! be released after every handle derived from it.

pub mod cli;
pub mod expr;
pub mod nix;
