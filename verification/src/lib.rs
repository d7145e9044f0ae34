//! Deterministic finite automata: construction, validation and simulation.
//!
//! An automaton is the classical five-tuple of states, input alphabet,
//! transition function, start state and accepting states. Running it on an
//! input yields a trace: the states passed through, what led to each of
//! them, and whether the input is accepted.

pub mod automaton;
pub mod laws;
pub mod trace;
pub mod values;

pub use automaton::{DeterministicFiniteAutomaton, InvalidAutomaton, Machine};
pub use trace::{Label, Run, Sequence};
