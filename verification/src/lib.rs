//! A minimal execution engine for a tape-based, instruction-pointer-driven
//! esoteric language: eight data/control instructions plus a terminator mark.
//!
//! The engine walks the raw source text one instruction at a time, mutating a
//! fixed-size byte tape and appending to a text output buffer.  Its behaviour
//! is specified against an abstract machine state ([`model::Machine`]) and a
//! one-step transition function ([`model::step_machine`]).

pub mod interpreter;
pub mod laws;
pub mod model;
